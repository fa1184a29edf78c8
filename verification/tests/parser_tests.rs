use copilot_desktop::parser::AnsiParser;
use copilot_desktop::types::ParsedOutput;

#[test]
fn test_plain_text() {
    let mut parser = AnsiParser::new();
    let results = parser.feed("Hello world\n");
    assert_eq!(results.len(), 1);
    assert!(matches!(&results[0], ParsedOutput::Text(s) if s == "Hello world"));
}

#[test]
fn test_code_block() {
    let mut parser = AnsiParser::new();
    let results = parser.feed("```rust\nfn main() {}\n```\n");
    assert_eq!(results.len(), 1);
    match &results[0] {
        ParsedOutput::CodeBlock { language, code } => {
            assert_eq!(language.as_deref(), Some("rust"));
            assert_eq!(code, "fn main() {}");
        }
        _ => panic!("Expected CodeBlock"),
    }
}

#[test]
fn test_streaming_partial_lines() {
    let mut parser = AnsiParser::new();
    let r1 = parser.feed("Hello ");
    assert!(r1.is_empty());
    let r2 = parser.feed("world\n");
    assert_eq!(r2.len(), 1);
    assert!(matches!(&r2[0], ParsedOutput::Text(s) if s == "Hello world"));
}

#[test]
fn test_tool_execution() {
    let mut parser = AnsiParser::new();
    let results = parser.feed("⚡ Running: bash ls -la\n");
    assert_eq!(results.len(), 1);
    assert!(
        matches!(&results[0], ParsedOutput::ToolExecution { tool, status } if !tool.is_empty() && status == "running")
    );
}

#[test]
fn test_file_change() {
    let mut parser = AnsiParser::new();
    let results = parser.feed("Created file: src/main.rs\n");
    assert_eq!(results.len(), 1);
    assert!(
        matches!(&results[0], ParsedOutput::FileChange { path, action } if path == "src/main.rs" && action == "created")
    );
}

#[test]
fn test_error() {
    let mut parser = AnsiParser::new();
    let results = parser.feed("Error: something went wrong\n");
    assert_eq!(results.len(), 1);
    assert!(matches!(&results[0], ParsedOutput::Error(s) if s.contains("something went wrong")));
}

#[test]
fn test_flush() {
    let mut parser = AnsiParser::new();
    let r1 = parser.feed("partial");
    assert!(r1.is_empty());
    let r2 = parser.flush();
    assert_eq!(r2.len(), 1);
    assert!(matches!(&r2[0], ParsedOutput::Text(s) if s == "partial"));
}

#[test]
fn test_ansi_stripping() {
    let mut parser = AnsiParser::new();
    let results = parser.feed("\x1b[32mGreen text\x1b[0m\n");
    assert_eq!(results.len(), 1);
    assert!(matches!(&results[0], ParsedOutput::Text(s) if s == "Green text"));
}

#[test]
fn test_empty_stream_then_flush_yields_nothing() {
    let mut parser = AnsiParser::new();
    let fed = parser.feed("");
    assert!(fed.is_empty());
    let flushed = parser.flush();
    assert!(flushed.is_empty());
}

#[test]
fn test_chunk_split_equivalence() {
    let stream = "Hello there\n```py\nx = 1\ny = 2\n```\n✓ build finished\n";
    let mut whole = AnsiParser::new();
    let mut expected = whole.feed(stream);
    expected.extend(whole.flush());

    let mut split = AnsiParser::new();
    let mut actual = Vec::new();
    actual.extend(split.feed("Hello th"));
    actual.extend(split.feed("ere\n```py\nx ="));
    actual.extend(split.feed(" 1\ny = 2\n`"));
    actual.extend(split.feed("``\n✓ build finished\n"));
    actual.extend(split.flush());

    assert_eq!(format!("{:?}", actual), format!("{:?}", expected));
}

#[test]
fn test_unterminated_fence_flushes_block() {
    let mut parser = AnsiParser::new();
    let fed = parser.feed("```sh\necho hi\n");
    assert!(fed.is_empty());
    let flushed = parser.flush();
    assert_eq!(flushed.len(), 1);
    match &flushed[0] {
        ParsedOutput::CodeBlock { language, code } => {
            assert_eq!(language.as_deref(), Some("sh"));
            assert_eq!(code, "echo hi");
        }
        _ => panic!("Expected CodeBlock"),
    }
}

#[test]
fn test_fence_without_language() {
    let mut parser = AnsiParser::new();
    let results = parser.feed("```\nplain\n```\n");
    assert_eq!(results.len(), 1);
    match &results[0] {
        ParsedOutput::CodeBlock { language, code } => {
            assert!(language.is_none());
            assert_eq!(code, "plain");
        }
        _ => panic!("Expected CodeBlock"),
    }
}

#[test]
fn test_empty_lines_emit_nothing() {
    let mut parser = AnsiParser::new();
    let results = parser.feed("\n   \n\t\n");
    assert!(results.is_empty());
}

#[test]
fn test_tool_execution_shell_prompt() {
    let mut parser = AnsiParser::new();
    let results = parser.feed("$ cargo test\n");
    assert_eq!(results.len(), 1);
    assert!(
        matches!(&results[0], ParsedOutput::ToolExecution { tool, status } if tool == "cargo test" && status == "executing")
    );
}

#[test]
fn test_tool_execution_completed_and_failed() {
    let mut parser = AnsiParser::new();
    let results = parser.feed("✓ fmt done\n✗ clippy\n");
    assert_eq!(results.len(), 2);
    assert!(
        matches!(&results[0], ParsedOutput::ToolExecution { tool, status } if tool == "fmt done" && status == "completed")
    );
    assert!(
        matches!(&results[1], ParsedOutput::ToolExecution { tool, status } if tool == "clippy" && status == "failed")
    );
}

#[test]
fn test_git_style_file_change() {
    let mut parser = AnsiParser::new();
    let results = parser.feed("M src/lib.rs\nA notes.txt\nD old/mod.rs\n");
    assert_eq!(results.len(), 3);
    assert!(
        matches!(&results[0], ParsedOutput::FileChange { path, action } if path == "src/lib.rs" && action == "modified")
    );
    assert!(
        matches!(&results[1], ParsedOutput::FileChange { path, action } if path == "notes.txt" && action == "added")
    );
    assert!(
        matches!(&results[2], ParsedOutput::FileChange { path, action } if path == "old/mod.rs" && action == "deleted")
    );
}

#[test]
fn test_git_style_needs_separator_or_dot() {
    let mut parser = AnsiParser::new();
    let results = parser.feed("A bunch\n");
    assert_eq!(results.len(), 1);
    assert!(matches!(&results[0], ParsedOutput::Text(s) if s == "A bunch"));
}

#[test]
fn test_thinking_marker() {
    let mut parser = AnsiParser::new();
    let results = parser.feed("Thinking: about the plan\n");
    assert_eq!(results.len(), 1);
    assert!(matches!(&results[0], ParsedOutput::Thinking(s) if s == "about the plan"));
}

#[test]
fn test_updated_and_wrote_file() {
    let mut parser = AnsiParser::new();
    let results = parser.feed("Updated file: a/b.txt\nWrote file: c.txt\n");
    assert_eq!(results.len(), 2);
    assert!(
        matches!(&results[0], ParsedOutput::FileChange { path, action } if path == "a/b.txt" && action == "updated")
    );
    assert!(
        matches!(&results[1], ParsedOutput::FileChange { path, action } if path == "c.txt" && action == "wrote")
    );
}

#[test]
fn test_carriage_returns_are_discarded() {
    let mut parser = AnsiParser::new();
    let results = parser.feed("Hello\r\nworld\r\n");
    assert_eq!(results.len(), 2);
    assert!(matches!(&results[0], ParsedOutput::Text(s) if s == "Hello"));
    assert!(matches!(&results[1], ParsedOutput::Text(s) if s == "world"));
}
