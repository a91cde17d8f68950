use wake_core::models::{MessageKind, Role, TranscriptMessage};
use wake_core::pending::{flush_pending_assistant, PendingAssistant};
use wake_core::plain::PlainConventions;
use wake_core::row::{read_row, step_kind, Row, StepKind, ToolCallRow};
use wake_core::tool_args::ToolArgs;
use wake_core::transcript::{
    count_unknown_lines, parse_antigravity_jsonl, says_nothing_known, try_parse_antigravity_jsonl,
    AntigravityIdeParse, IdeReader,
};

fn rules() -> PlainConventions {
    PlainConventions { max_msg_text: 40, max_tool_io: 12, untitled: "Untitled".to_string() }
}

fn lines(texts: &[&str]) -> Vec<Option<String>> {
    texts.iter().map(|t| Some(t.to_string())).collect()
}

fn parse(texts: &[&str]) -> AntigravityIdeParse {
    parse_antigravity_jsonl(&rules(), &lines(texts))
}

fn step(step_type: &str, content: &str) -> Row {
    Row {
        step_type: step_type.to_string(),
        status: String::new(),
        created_at: String::new(),
        content: Some(content.to_string()),
        thinking: None,
        tool_calls: None,
        step_index: 0,
    }
}

fn call(name: &str) -> ToolCallRow {
    ToolCallRow { name: name.to_string(), args: None }
}

fn texts(messages: &Vec<TranscriptMessage>) -> Vec<&str> {
    messages.iter().map(|m| m.text.as_str()).collect()
}

#[test]
fn a_conversation_is_read_whole() {
    let parsed = parse(&[
        r#"{"type":"USER_INPUT","created_at":"2026-09-05T10:00:00Z","content":"<USER_REQUEST>\nFix it\nplease\n</USER_REQUEST>\nActive Document: /p/src/a.rs (Rust)\n"}"#,
        r#"{"type":"PLANNER_RESPONSE","created_at":"2026-09-05T10:00:01.5Z","thinking":" hm ","content":" Looking. ","step_index":7,"tool_calls":[{"name":"view_file","args":{"AbsolutePath":"\"/p/src/a.rs\"","Cwd":"/p"}},{"args":"{\"CommandLine\":\"ls\"}"}]}"#,
        r#"{"type":"RUN_COMMAND","status":"DONE","content":" listing of the files "}"#,
        r#"{"type":"VIEW_FILE","status":"ERROR","content":"gone"}"#,
        r#"{"type":"PLANNER_RESPONSE","created_at":"2026-09-05T10:00:03Z","content":"Done."}"#,
        r#"{"type":"CHECKPOINT","content":" all summed up "}"#,
        r#"{"type":"SYSTEM_MESSAGE","content":"nothing"}"#,
    ]);
    assert_eq!(texts(&parsed.messages), vec!["Fix it\nplease", "Looking.\n\nDone.", "all summed up"]);
    let seqs: Vec<usize> = parsed.messages.iter().map(|m| m.seq).collect();
    assert_eq!(seqs, vec![0, 1, 2]);
    assert_eq!(parsed.messages[0].role, Role::User);
    assert_eq!(parsed.messages[0].timestamp, Some(1788602400000));
    assert_eq!(parsed.messages[2].role, Role::System);
    assert_eq!(parsed.messages[2].kind, MessageKind::CompactSummary);
    assert_eq!(parsed.messages[2].timestamp, None);
    let answer = &parsed.messages[1];
    assert_eq!(answer.role, Role::Assistant);
    assert_eq!(answer.thinking, Some("hm".to_string()));
    assert_eq!(answer.timestamp, Some(1788602401500));
    assert_eq!(answer.tool_calls.len(), 2);
    assert_eq!(answer.tool_calls[0].id, "tc-7-0");
    assert_eq!(answer.tool_calls[0].name, "view_file");
    assert_eq!(answer.tool_calls[0].input_preview, "/p/src/a.rs");
    assert_eq!(
        answer.tool_calls[0].input,
        Some(r#"{"AbsolutePath":"\"/p/src/a.rs\"","Cwd":"/p"}"#.to_string())
    );
    assert_eq!(answer.tool_calls[0].output, Some("gone".to_string()));
    assert!(answer.tool_calls[0].is_error);
    assert_eq!(answer.tool_calls[1].id, "tc-7-1");
    assert_eq!(answer.tool_calls[1].name, "tool");
    assert_eq!(answer.tool_calls[1].input_preview, "ls");
    assert_eq!(answer.tool_calls[1].input, Some(r#"{"CommandLine":"ls"}"#.to_string()));
    assert_eq!(answer.tool_calls[1].output, Some("listing of t".to_string()));
    assert!(!answer.tool_calls[1].is_error);
    assert_eq!(parsed.title, Some("Fix it".to_string()));
    assert_eq!(parsed.project_path, Some("/p".to_string()));
    assert_eq!(parsed.model, None);
    assert_eq!(parsed.created_at, 1788602400000);
    assert_eq!(parsed.updated_at, 1788602403000);
    assert_eq!(parsed.unknown_lines, 0);
}

#[test]
fn lines_that_say_nothing_known_are_counted() {
    let mut all = lines(&["", "   ", "no json", "5", r#"{"type":"NEW_THING"}"#, r#"{"type":7}"#, "{}"]);
    all.push(None);
    let parsed = parse_antigravity_jsonl(&rules(), &all);
    assert_eq!(parsed.unknown_lines, 6);
    assert_eq!(parsed.messages.len(), 0);
    assert_eq!(parsed.created_at, 0);
    assert_eq!(parsed.updated_at, 0);
    assert_eq!(parsed.title, None);
    assert_eq!(parsed.project_path, None);
}

#[test]
fn no_lines_say_nothing() {
    let parsed = parse(&[]);
    assert_eq!(parsed.messages.len(), 0);
    assert_eq!(parsed.unknown_lines, 0);
}

#[test]
fn blank_lines_make_no_difference() {
    let a = r#"{"type":"USER_INPUT","content":"one"}"#;
    let b = r#"{"type":"PLANNER_RESPONSE","content":"two"}"#;
    let with = parse(&[a, " \t", b, "\u{3000}"]);
    let without = parse(&[a, b]);
    assert_eq!(texts(&with.messages), texts(&without.messages));
    assert_eq!(with.unknown_lines, without.unknown_lines);
}

#[test]
fn more_lines_take_nothing_back() {
    let a = r#"{"type":"USER_INPUT","content":"one","created_at":"2026-01-01T00:00:00Z"}"#;
    let b = r#"{"type":"USER_INPUT","content":"two","created_at":"2026-01-02T00:00:00Z"}"#;
    let parsed = parse(&[a, b]);
    assert_eq!(parsed.title, Some("one".to_string()));
    assert_eq!(texts(&parsed.messages), vec!["one", "two"]);
    assert_eq!(parsed.created_at, 1767225600000);
    assert_eq!(parsed.updated_at, 1767312000000);
}

#[test]
fn a_directory_of_a_tool_goes_before_a_document() {
    let doc = r#"{"type":"USER_INPUT","content":"hi\nActive Document: /d/x.md"}"#;
    let tool = r#"{"type":"PLANNER_RESPONSE","tool_calls":[{"name":"a","args":{"Cwd":"''"}},{"name":"b","args":{"SearchPath":"/s"}},{"name":"c","args":{"Cwd":"/later"}}]}"#;
    assert_eq!(parse(&[doc]).project_path, Some("/d/x.md".to_string()));
    assert_eq!(parse(&[doc, tool]).project_path, Some("/s".to_string()));
}

#[test]
fn the_model_chosen_last_is_shown() {
    let parsed = parse(&[
        r#"{"type":"PLANNER_RESPONSE","content":"before"}"#,
        r#"{"type":"USER_INPUT","content":"hi `Model Selection` from A to Gemini 3 Pro. No need to mention it"}"#,
        r#"{"type":"PLANNER_RESPONSE","content":"after"}"#,
        r#"{"type":"USER_INPUT","content":"more"}"#,
    ]);
    let models: Vec<Option<String>> = parsed.messages.iter().map(|m| m.model.clone()).collect();
    let gemini = Some("Gemini 3 Pro".to_string());
    assert_eq!(models, vec![None, gemini.clone(), gemini.clone(), gemini.clone()]);
    assert_eq!(parsed.model, gemini);
}

#[test]
fn a_report_answers_the_last_open_call() {
    let mut reader = IdeReader::new();
    let mut planner = step("PLANNER_RESPONSE", "");
    planner.tool_calls = Some(vec![call("a"), call("b"), call("c")]);
    planner.step_index = -3;
    reader.read_step(&rules(), &planner);
    for said in ["one", "two", "three", "four"] {
        reader.read_step(&rules(), &step("GENERIC", said));
    }
    let outputs: Vec<Option<String>> =
        reader.pending.tool_calls.iter().map(|c| c.output.clone()).collect();
    assert_eq!(
        outputs,
        vec![Some("three".to_string()), Some("two".to_string()), Some("one".to_string())]
    );
    assert_eq!(reader.pending.tool_calls[2].id, "tc--3-2");
    assert_eq!(reader.messages.len(), 0);
}

#[test]
fn a_failure_that_answers_nothing_is_a_message() {
    let mut reader = IdeReader::new();
    reader.read_step(&rules(), &step("ERROR_MESSAGE", "  broken  "));
    reader.read_step(&rules(), &step("ERROR_MESSAGE", "   "));
    let mut failed = step("RUN_COMMAND", "failed");
    failed.status = "ERROR".to_string();
    reader.read_step(&rules(), &failed);
    reader.read_step(&rules(), &step("RUN_COMMAND", "fine"));
    assert_eq!(texts(&reader.messages), vec!["broken", "failed"]);
    assert_eq!(reader.messages[0].role, Role::System);
    assert_eq!(reader.messages[0].kind, MessageKind::Text);
    assert_eq!(reader.unknown_lines, 0);
}

#[test]
fn long_texts_are_cut() {
    let long = "x".repeat(50);
    let parsed = parse(&[
        &format!(r#"{{"type":"USER_INPUT","content":"{}"}}"#, long),
        &format!(r#"{{"type":"PLANNER_RESPONSE","content":"{}","thinking":"{}"}}"#, long, long),
    ]);
    assert_eq!(parsed.messages[0].text, "x".repeat(40));
    assert!(parsed.messages[0].truncated);
    assert_eq!(parsed.messages[1].text, "x".repeat(40));
    assert!(parsed.messages[1].truncated);
    assert_eq!(parsed.messages[1].thinking, Some("x".repeat(12)));
}

#[test]
fn a_silent_answer_is_not_written_out() {
    let mut reader = IdeReader::new();
    let mut planner = step("PLANNER_RESPONSE", "  ");
    planner.created_at = "1970-01-01T00:00:01Z".to_string();
    reader.read_step(&rules(), &planner);
    reader.read_step(&rules(), &step("CHECKPOINT", ""));
    assert_eq!(reader.messages.len(), 0);
    assert_eq!(reader.pending.timestamp, Some(1000));
    planner.content = Some("now".to_string());
    planner.created_at = "1970-01-01T00:00:09Z".to_string();
    reader.read_step(&rules(), &planner);
    let parsed = reader.finish(&rules());
    assert_eq!(parsed.messages[0].timestamp, Some(1000));
    assert_eq!(parsed.created_at, 1000);
    assert_eq!(parsed.updated_at, 9000);
}

#[test]
fn flushing_twice_is_flushing_once() {
    let mut pending = PendingAssistant::default();
    pending.content = "said".to_string();
    pending.model = Some("m".to_string());
    pending.timestamp = Some(5);
    let mut messages: Vec<TranscriptMessage> = Vec::new();
    flush_pending_assistant(&rules(), &mut pending, &mut messages);
    flush_pending_assistant(&rules(), &mut pending, &mut messages);
    assert_eq!(texts(&messages), vec!["said"]);
    assert_eq!(messages[0].model, Some("m".to_string()));
    assert_eq!(messages[0].timestamp, Some(5));
    assert_eq!(pending.timestamp, None);
    assert_eq!(pending.model, None);
    assert!(pending.content.is_empty());
}

#[test]
fn thinking_is_gathered() {
    let mut reader = IdeReader::new();
    for thought in [" a ", "\n", "b"] {
        let mut planner = step("PLANNER_RESPONSE", "");
        planner.thinking = Some(thought.to_string());
        reader.read_step(&rules(), &planner);
    }
    assert_eq!(reader.pending.thinking, Some("a\n\nb".to_string()));
}

#[test]
fn steps_are_told_by_their_types() {
    assert_eq!(step_kind("USER_INPUT"), StepKind::UserInput);
    assert_eq!(step_kind("PLANNER_RESPONSE"), StepKind::PlannerResponse);
    for t in [
        "VIEW_FILE", "RUN_COMMAND", "GREP_SEARCH", "LIST_DIRECTORY", "CODE_ACTION",
        "BROWSER_SUBAGENT", "SEARCH_WEB", "READ_URL_CONTENT", "ASK_QUESTION", "GENERIC",
        "ERROR_MESSAGE",
    ] {
        assert_eq!(step_kind(t), StepKind::ToolResult);
    }
    assert_eq!(step_kind("CHECKPOINT"), StepKind::Checkpoint);
    for t in ["CONVERSATION_HISTORY", "KNOWLEDGE_ARTIFACTS", "SYSTEM_MESSAGE"] {
        assert_eq!(step_kind(t), StepKind::Ignored);
    }
    assert_eq!(step_kind(""), StepKind::Unknown);
    assert_eq!(step_kind("user_input"), StepKind::Unknown);
}

#[test]
fn a_row_is_read_from_json() {
    let value: serde_json::Value = serde_json::from_str(
        r#"{"type":"T","status":4,"created_at":"c","content":null,"thinking":"t","step_index":9223372036854775808,"tool_calls":[{"name":"n","args":[1,2.5]},3]}"#,
    )
    .unwrap();
    let row = read_row(&value);
    assert_eq!(row.step_type, "T");
    assert_eq!(row.status, "");
    assert_eq!(row.created_at, "c");
    assert_eq!(row.content, None);
    assert_eq!(row.thinking, Some("t".to_string()));
    assert_eq!(row.step_index, 0);
    let calls = row.tool_calls.unwrap();
    assert_eq!(calls.len(), 2);
    assert_eq!(calls[0].name, "n");
    match &calls[0].args {
        Some(ToolArgs::Tree { members, text }) => {
            assert_eq!(members.len(), 0);
            assert_eq!(text, "[1,2.5]");
        }
        _ => panic!("a tree was expected"),
    }
    assert_eq!(calls[1].name, "tool");
    assert!(calls[1].args.is_none());
}

#[test]
fn lines_can_be_read_in_two_parts() {
    let first = [r#"{"type":"USER_INPUT","content":"a"}"#, r#"{"type":"PLANNER_RESPONSE","content":"b"}"#];
    let second = [r#"{"type":"PLANNER_RESPONSE","content":"c"}"#, "bad"];
    let mut reader = IdeReader::new();
    for line in lines(&first) {
        reader.read_line(&rules(), &line);
    }
    for line in lines(&second) {
        reader.read_line(&rules(), &line);
    }
    let parts = reader.finish(&rules());
    let whole = parse(&[first[0], first[1], second[0], second[1]]);
    assert_eq!(texts(&parts.messages), texts(&whole.messages));
    assert_eq!(parts.unknown_lines, whole.unknown_lines);
}

#[test]
fn times_come_together() {
    let none = parse(&[r#"{"type":"SYSTEM_MESSAGE","created_at":"1969-01-01T00:00:00Z"}"#]);
    assert_eq!((none.created_at, none.updated_at), (0, 0));
    let one = parse(&[r#"{"type":"SYSTEM_MESSAGE","created_at":"1970-01-01T00:00:01Z"}"#]);
    assert_eq!((one.created_at, one.updated_at), (1000, 1000));
}

#[test]
fn no_answer_is_lost() {
    let mut reader = IdeReader::new();
    reader.read_step(&rules(), &step("PLANNER_RESPONSE", "a"));
    reader.read_step(&rules(), &step("ODD", "b"));
    reader.read_step(&rules(), &step("SYSTEM_MESSAGE", "c"));
    assert_eq!(reader.pending.content, "a");
    reader.read_step(&rules(), &step("USER_INPUT", "d"));
    assert_eq!(texts(&reader.messages), vec!["a", "d"]);
    reader.read_step(&rules(), &step("PLANNER_RESPONSE", "e"));
    reader.read_step(&rules(), &step("CHECKPOINT", ""));
    assert_eq!(texts(&reader.messages), vec!["a", "d", "e"]);
}

#[test]
fn idle_lines_make_no_difference() {
    let said = r#"{"type":"USER_INPUT","content":"one"}"#;
    let plain = parse(&[said, "?"]);
    let idle = parse(&[
        "  ",
        r#"{"type":"CONVERSATION_HISTORY"}"#,
        said,
        r#"{"type":"KNOWLEDGE_ARTIFACTS","content":"x"}"#,
        "?",
        r#"{"type":"SYSTEM_MESSAGE","created_at":"never"}"#,
    ]);
    assert_eq!(plain.messages.len(), idle.messages.len());
    assert_eq!(plain.messages[0].text, idle.messages[0].text);
    assert!(idle.messages.iter().all(|m| m.images.is_empty()));
    assert_eq!(plain.title, idle.title);
    assert_eq!(plain.unknown_lines, idle.unknown_lines);
    assert_eq!((idle.created_at, idle.updated_at), (0, 0));
    let timed = parse(&[r#"{"type":"SYSTEM_MESSAGE","created_at":"1970-01-01T00:00:01Z"}"#]);
    assert_eq!((timed.created_at, timed.updated_at), (1000, 1000));
}

#[test]
fn unknown_lines_are_counted() {
    let all = vec![None, Some(" ".to_string()), Some("{}".to_string()), Some("?".to_string())];
    assert_eq!(count_unknown_lines(&all), 3);
    assert!(!says_nothing_known(&all[1]));
    assert_eq!(try_parse_antigravity_jsonl(&rules(), &all).unwrap().unknown_lines, 3);
}

#[test]
fn one_unknown_line_too_many_is_refused() {
    let mut reader = IdeReader::new();
    reader.unknown_lines = u32::MAX;
    assert!(!reader.try_read_line(&rules(), &None));
    assert_eq!(reader.unknown_lines, u32::MAX);
    let said = Some(r#"{"type":"USER_INPUT","content":"one"}"#.to_string());
    assert!(reader.try_read_line(&rules(), &said));
    assert_eq!(reader.messages.len(), 1);
    reader.unknown_lines = 0;
    assert!(reader.try_read_line(&rules(), &None));
    assert_eq!(reader.unknown_lines, 1);
}
