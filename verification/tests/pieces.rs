use std::path::Path;
use wake_core::conventions::Conventions;
use wake_core::json::str_members;
use wake_core::layout::{join, transcript_path, virtual_path};
use wake_core::pairs::lookup;
use wake_core::paths::{
    path_has_extension, path_lineage, path_name, path_parent, path_third_parent,
};
use wake_core::plain::PlainConventions;
use wake_core::projects::{find_longest_dir, find_project_path, read_projects};
use wake_core::request::extract_user_request;
use wake_core::store::{read_summary, SummaryColumns};
use wake_core::text::{
    ends_with, find_in, has_char, is_blank, push_decimal, same_text, starts_with, strip_of,
    trim_text, CharClass,
};
use wake_core::time::timestamp_ms;
use wake_core::tool_args::{parse_args_with, parse_tool_args, read_args, ToolArgs};
use wake_core::workspace::{
    can_percent_decode, first_workspace, percent_decode, try_first_workspace, workspace_path,
};

fn rules() -> PlainConventions {
    PlainConventions { max_msg_text: 1000, max_tool_io: 1000, untitled: "Untitled".to_string() }
}

fn some(s: &str) -> Option<String> {
    Some(s.to_string())
}

fn chars(s: &str) -> Vec<char> {
    s.chars().collect()
}

#[test]
fn a_tagged_request_is_read_back() {
    let (request, document, model) =
        extract_user_request("head <USER_REQUEST> do <it> \n</USER_REQUEST> tail </USER_REQUEST>");
    assert_eq!(request, "do <it>");
    assert_eq!(document, None);
    assert_eq!(model, None);
}

#[test]
fn a_request_may_lack_tags() {
    assert_eq!(extract_user_request(" plain ").0, "plain");
    assert_eq!(extract_user_request("a <USER_REQUEST> b ").0, "b");
    assert_eq!(extract_user_request("").0, "");
    assert_eq!(extract_user_request("x </USER_REQUEST>").0, "x </USER_REQUEST>");
}

#[test]
fn the_open_document_is_told() {
    assert_eq!(extract_user_request("Active Document: /a b/c.rs (LANG)\r\nx").1, some("/a b/c.rs"));
    assert_eq!(extract_user_request("Active Document: /a.rs\nnext (").1, some("/a.rs"));
    assert_eq!(extract_user_request("Active Document:\n/a.rs").1, None);
    assert_eq!(extract_user_request("Active Document: (x)").1, some("(x)"));
    assert_eq!(extract_user_request("Active Document:").1, None);
}

#[test]
fn the_chosen_model_is_told() {
    let head = "The user changed setting `Model Selection` from None to ";
    let told = |tail: &str| extract_user_request(&format!("{}{}", head, tail)).2;
    assert_eq!(told("Gemini 3.1 Pro (High). No need to comment."), some("Gemini 3.1 Pro (High)"));
    assert_eq!(told("M1.\r\nrest"), some("M1"));
    assert_eq!(told("M2.\nrest"), some("M2"));
    assert_eq!(told("M3\nrest"), some("M3"));
    assert_eq!(told("M4..."), some("M4"));
    assert_eq!(told(" . "), None);
    assert_eq!(extract_user_request("`Model Selection` from A").2, None);
    assert_eq!(extract_user_request("change to B `Model Selection` from A").2, None);
}

#[test]
fn arguments_tell_what_a_call_is_about() {
    let value: serde_json::Value = serde_json::from_str(
        r#"{"Query":"q","toolAction":"'Look'","toolSummary":"  ","Cwd":"\" /w \"","n":1}"#,
    )
    .unwrap();
    let args = read_args(&value);
    let (preview, input, cwd) = parse_tool_args(&rules(), "any", Some(&args));
    assert_eq!(preview, "Look");
    assert_eq!(input, Some(value.to_string()));
    assert_eq!(cwd, some("/w"));
}

#[test]
fn arguments_may_be_text() {
    let json = ToolArgs::Text(r#" {"TargetFile":"f","SearchPath":"/s"} "#.to_string());
    let (preview, input, cwd) = parse_tool_args(&rules(), "t", Some(&json));
    assert_eq!(preview, "f");
    assert_eq!(input, some(r#" {"TargetFile":"f","SearchPath":"/s"} "#));
    assert_eq!(cwd, some("/s"));
    let plain = ToolArgs::Text("  just text ".to_string());
    let (preview, input, cwd) = parse_tool_args(&rules(), "t", Some(&plain));
    assert_eq!(preview, "just text");
    assert_eq!(input, some("  just text "));
    assert_eq!(cwd, None);
}

#[test]
fn arguments_may_be_missing() {
    assert_eq!(parse_tool_args(&rules(), "t", None), (String::new(), None, None));
}

#[test]
fn other_arguments_are_shown_as_json() {
    let value: serde_json::Value = serde_json::from_str("[1, {\"Cwd\": \"/x\"}]").unwrap();
    let args = read_args(&value);
    let (preview, input, cwd) = parse_tool_args(&rules(), "t", Some(&args));
    assert_eq!(preview, "[1,{\"Cwd\":\"/x\"}]");
    assert_eq!(input, some("[1,{\"Cwd\":\"/x\"}]"));
    assert_eq!(cwd, None);
}

#[test]
fn what_is_shown_of_arguments_is_cut() {
    let args = ToolArgs::Text("y".repeat(130));
    let (preview, input, _) = parse_tool_args(&rules(), "t", Some(&args));
    assert_eq!(preview, "y".repeat(120));
    assert_eq!(input, Some("y".repeat(130)));
}

#[test]
fn members_may_be_handed_in() {
    let args = ToolArgs::Tree { members: Vec::new(), text: "{}".to_string() };
    let members = vec![
        ("DirectoryPath".to_string(), "/old".to_string()),
        ("DirectoryPath".to_string(), "/new".to_string()),
    ];
    let (preview, _, cwd) = parse_args_with(&rules(), &args, &members);
    assert_eq!(preview, "/new");
    assert_eq!(cwd, some("/new"));
}

#[test]
fn string_members_are_listed() {
    let value: serde_json::Value =
        serde_json::from_str(r#"{"a":"x","b":2,"a":"y","c":"z"}"#).unwrap();
    let members = str_members(&value);
    assert_eq!(members.len(), 2);
    assert_eq!(lookup(&members, "a"), Some(&"y".to_string()));
    assert_eq!(lookup(&members, "b"), None);
    assert_eq!(lookup(&members, "c"), Some(&"z".to_string()));
    assert_eq!(str_members(&serde_json::Value::Null).len(), 0);
}

#[test]
fn escapes_are_undone() {
    assert_eq!(percent_decode("/a%20b/%E4%B8%AD"), "/a b/中");
    assert_eq!(percent_decode("%2f%2F"), "//");
    assert_eq!(percent_decode("%25"), "%");
}

#[test]
fn a_text_without_escapes_is_kept() {
    assert_eq!(percent_decode("/plain/中文 x"), "/plain/中文 x");
    assert_eq!(percent_decode(""), "");
}

#[test]
fn what_is_no_escape_is_kept() {
    assert_eq!(percent_decode("100%"), "100%");
    assert_eq!(percent_decode("%4"), "%4");
    assert_eq!(percent_decode("%zz"), "%zz");
    assert_eq!(percent_decode("%%41"), "%A");
    assert_eq!(percent_decode("%-1"), "%-1");
    assert_eq!(percent_decode("%é"), "%é");
}

#[test]
fn a_plus_sign_may_stand_before_a_digit() {
    assert_eq!(percent_decode("a%+Ab"), "a\nb");
    assert_eq!(percent_decode("%++"), "%++");
}

#[test]
fn what_is_not_utf8_is_replaced() {
    assert_eq!(percent_decode("%FFx"), "\u{fffd}x");
}

#[test]
fn a_pair_must_not_cut_a_character() {
    assert!(can_percent_decode("/a%20b"));
    assert!(can_percent_decode("%é"));
    assert!(!can_percent_decode("%aé"));
    assert!(!can_percent_decode("%中"));
    assert!(can_percent_decode("中%"));
}

#[test]
fn the_first_workspace_is_taken() {
    assert_eq!(first_workspace(r#"["file:///Users/x%20y","file:///z"]"#), "/Users/x y");
    assert_eq!(first_workspace(r#"["/bare"]"#), "/bare");
    assert_eq!(first_workspace("[]"), "");
    assert_eq!(first_workspace("[1]"), "");
    assert_eq!(first_workspace("{}"), "");
    assert_eq!(first_workspace("not json"), "");
    assert_eq!(try_first_workspace(r#"["file:///a%41"]"#), some("/aA"));
    assert_eq!(try_first_workspace(r#"["file:///%中"]"#), None);
    assert_eq!(try_first_workspace(""), some(""));
    assert_eq!(workspace_path("file://file://x"), some("file://x"));
    assert_eq!(workspace_path("%中"), None);
}

#[test]
fn a_summary_is_read_from_its_columns() {
    let full = SummaryColumns {
        conversation_id: "c1".to_string(),
        title: some("T"),
        preview: some("P"),
        step_count: Some(9),
        last_modified_time: some(" 2026-01-01 00:00:00 "),
        workspace_uris: some(r#"["file:///w"]"#),
    };
    let row = read_summary(&rules(), full).unwrap();
    assert_eq!(row.id, "c1");
    assert_eq!(row.title, "T");
    assert_eq!(row.preview, "P");
    assert_eq!(row.step_count, 9);
    assert_eq!(row.modified_ms, 1767225600000);
    assert_eq!(row.cwd, "/w");
}

#[test]
fn a_summary_may_lack_columns() {
    let bare = SummaryColumns {
        conversation_id: "c2".to_string(),
        title: None,
        preview: None,
        step_count: None,
        last_modified_time: None,
        workspace_uris: None,
    };
    let row = read_summary(&rules(), bare).unwrap();
    assert_eq!(row.title, "");
    assert_eq!(row.preview, "");
    assert_eq!(row.step_count, 0);
    assert_eq!(row.modified_ms, 0);
    assert_eq!(row.cwd, "");
}

#[test]
fn a_summary_with_a_cut_escape_is_refused() {
    let broken = SummaryColumns {
        conversation_id: "c3".to_string(),
        title: None,
        preview: None,
        step_count: None,
        last_modified_time: None,
        workspace_uris: some(r#"["%中"]"#),
    };
    assert!(read_summary(&rules(), broken).is_none());
}

#[test]
fn projects_are_read() {
    let list = read_projects(Some(r#"{"projects":{"/a":"A","/b":5,"/c":"C"},"x":{}}"#));
    assert_eq!(list.len(), 2);
    assert_eq!(lookup(&list, "/a"), Some(&"A".to_string()));
    assert_eq!(lookup(&list, "/c"), Some(&"C".to_string()));
    assert_eq!(read_projects(Some("{}")).len(), 0);
    assert_eq!(read_projects(Some("oops")).len(), 0);
    assert_eq!(read_projects(Some(r#"{"projects":["/a"]}"#)).len(), 0);
    assert_eq!(read_projects(None).len(), 0);
}

#[test]
fn the_longest_project_is_found() {
    let list: Vec<(String, String)> = ["C:\\Work", "c:/work/App", "/home/u", "C:/WORK/app/"]
        .iter()
        .map(|p| (p.to_string(), "n".to_string()))
        .collect();
    assert_eq!(find_project_path(&list, "C:\\work\\APP"), some("c:/work/App"));
    assert_eq!(find_project_path(&list, "c:/Work/app/src"), some("C:/WORK/app/"));
    assert_eq!(find_project_path(&list, "c:/work2"), some("C:\\Work"));
    assert_eq!(find_project_path(&list, "/HOME/U/x"), some("/home/u"));
    assert_eq!(find_project_path(&list, "/other"), None);
    assert_eq!(find_project_path(&list, ""), None);
}

#[test]
fn of_equally_long_directories_the_first_is_taken() {
    let dirs: Vec<String> = vec!["/a".to_string(), "\\a".to_string(), "".to_string()];
    assert_eq!(find_longest_dir(&dirs, "/a/b"), Some(0));
    assert_eq!(find_longest_dir(&dirs, "/c"), Some(2));
    assert_eq!(find_longest_dir(&Vec::new(), "/c"), None);
}

#[test]
fn paths_are_joined() {
    assert_eq!(join('/', "", "x"), "x");
    assert_eq!(join('/', "/", "x"), "/x");
    assert_eq!(join('/', "/a", "x"), "/a/x");
    assert_eq!(join('\\', "C:\\a", "x"), "C:\\a\\x");
    assert_eq!(join('\\', "C:/", "x"), "C:/x");
    assert_eq!(join('/', "a\\", "x"), "a\\/x");
    assert_eq!(transcript_path('/', "/b/1"), "/b/1/.system_generated/logs/transcript.jsonl");
    assert_eq!(virtual_path("/s.db", "id"), "/s.db#id");
}

#[test]
fn times_are_read() {
    assert_eq!(timestamp_ms("1970-01-01T00:00:00Z"), 0);
    assert_eq!(timestamp_ms("1970-01-02 00:00:00"), 86400000);
    assert_eq!(timestamp_ms("2000-02-29T23:59:59.999Z"), 951868799999);
    assert_eq!(timestamp_ms("2024-12-31T12:00:00.5"), 1735646400500);
    assert_eq!(timestamp_ms("2026-09-05T10:00:00.123456789Z"), 1788602400123);
    assert_eq!(timestamp_ms("1969-12-31T23:59:59Z"), -1000);
    assert_eq!(timestamp_ms("1970-01-01T08:00:01+08:00"), 1000);
    assert_eq!(timestamp_ms("1970-01-01T00:00:00.25-01:30"), 5400250);
}

#[test]
fn what_is_no_time_is_zero() {
    for text in [
        "", "2026", "2026-13-01T00:00:00Z", "2025-02-29T00:00:00Z", "2026-01-01T24:00:00Z",
        "2026-01-01T00:00:00+0800", "2026-01-01T00:00:00+24:00",
        "2026-01-01T00:00:00.Z", "2026-01-01T00:00:00ZZ",
        "2026/01/01T00:00:00Z", "2026-01-01X00:00:00Z", "0000-01-01T00:00:00Z",
    ] {
        assert_eq!(timestamp_ms(text), 0);
    }
}

#[test]
fn texts_are_searched_and_trimmed() {
    assert_eq!(find_in(&chars("ababc"), "abc"), Some(2));
    assert_eq!(find_in(&chars("ababc"), "x"), None);
    assert_eq!(find_in(&chars("ab"), ""), Some(0));
    assert_eq!(find_in(&chars(""), ""), Some(0));
    assert_eq!(find_in(&chars("a"), "ab"), None);
    assert_eq!(trim_text("\u{3000}\u{a0}a b\t\r\n"), "a b");
    assert_eq!(trim_text("\u{200b}"), "\u{200b}");
    assert!(is_blank(" \u{85}"));
    assert!(!is_blank("."));
    assert!(same_text("é", "é"));
    assert!(!same_text("e", "é"));
    assert!(has_char("a#b", '#'));
    assert!(!has_char("ab", '#'));
    assert!(starts_with(&chars("abc"), &chars("ab")));
    assert!(!starts_with(&chars("a"), &chars("ab")));
    assert!(ends_with(&chars("abc"), &chars("bc")));
    assert!(!ends_with(&chars("abc"), &chars("ab")));
    assert_eq!(strip_of(&chars("\"'x'y'"), CharClass::Quote), chars("x'y").as_slice());
}

#[test]
fn white_space_is_that_of_unicode() {
    for code in 0..=0x10ffffu32 {
        if let Some(c) = char::from_u32(code) {
            assert_eq!(is_blank(&c.to_string()), c.is_whitespace());
        }
    }
}

#[test]
fn numbers_are_written_in_decimal() {
    for n in [0i64, 7, 10, 1234567890, -1, i64::MIN, i64::MAX] {
        let mut out = "n".to_string();
        push_decimal(&mut out, n);
        assert_eq!(out, format!("n{}", n));
    }
}

#[test]
fn plain_conventions_hold() {
    let plain = rules();
    assert_eq!(plain.clip("中文字", 2), ("中文".to_string(), true));
    assert_eq!(plain.clip("中文", 2), ("中文".to_string(), false));
    assert_eq!(plain.clean_title_candidate("\n a \n b"), "a");
    assert_eq!(plain.clean_title_candidate("  "), "");
    assert_eq!(plain.project_name_of("/a/b"), "b");
    assert_eq!(plain.project_name_of("C:\\x"), "x");
    assert_eq!(plain.project_name_of("/a/"), "");
    assert_eq!(plain.project_name_of("a"), "a");
}

/// Every text of up to `n` pieces.
fn texts(pieces: &[&str], n: usize) -> Vec<String> {
    let mut all = vec![String::new()];
    let mut last = all.clone();
    for _ in 0..n {
        last = last.iter().flat_map(|t| pieces.iter().map(move |p| format!("{t}{p}"))).collect();
        all.extend(last.clone());
    }
    all
}

#[test]
fn resolving_escapes_makes_no_text_larger() {
    let pieces = ["%FF", "%E4", "%B8", "%AD", "%F0", "%90", "%41", "é", "中", "x", "%"];
    for text in texts(&pieces, 4) {
        if can_percent_decode(&text) {
            assert!(percent_decode(&text).len() <= text.len(), "{text}");
        }
    }
    assert_eq!(percent_decode("%FF%FF"), "\u{fffd}\u{fffd}");
    assert_eq!(percent_decode("%E4é"), "\u{fffd}é");
    assert_eq!(percent_decode("%F0%90%80World"), "\u{fffd}World");
}

#[test]
fn paths_are_taken_apart() {
    let last = |path: &Path| path.file_name().map(|s| s.to_str().unwrap().to_string());
    for text in texts(&["/", ".", "..", "a", "b.c", "/d"], 5) {
        let path = Path::new(&text);
        assert_eq!(path_name('/', &text), last(path), "{text}");
        let parent = path.parent().map(|p| p.to_str().unwrap().to_string());
        assert_eq!(path_parent('/', &text), parent, "{text}");
        assert_eq!(path_has_extension('/', &text), path.extension().is_some(), "{text}");
        let lineage: Vec<Option<String>> = path.ancestors().map(last).collect();
        assert_eq!(path_lineage('/', &text), lineage, "{text}");
        let third = path.ancestors().nth(3).map(|p| p.to_str().unwrap().to_string());
        assert_eq!(path_third_parent('/', &text), third, "{text}");
    }
}

#[test]
fn names_are_joined_to_paths() {
    for text in texts(&["/", ".", "a", "C:"], 4) {
        let joined = Path::new(&text).join("name").to_str().unwrap().to_string();
        assert_eq!(join('/', &text, "name"), joined, "{text}");
    }
    assert_eq!(join('\\', "C:", "brain"), "C:brain");
    assert_eq!(join('\\', "C:\\", "brain"), "C:\\brain");
    assert_eq!(join('\\', "C:x", "brain"), "C:x\\brain");
    assert_eq!(join('\\', "a/", "brain"), "a/brain");
    assert_eq!(join('\\', "1:", "brain"), "1:\\brain");
    assert_eq!(join('\\', "\\\\s\\h", "brain"), "\\\\s\\h\\brain");
}

#[test]
fn drives_and_shares_are_no_parts() {
    let name = |path: &str| path_name('\\', path);
    let parent = |path: &str| path_parent('\\', path);
    assert_eq!(name("C:\\a/b"), some("b"));
    assert_eq!(parent("C:\\a/b"), some("C:\\a"));
    assert_eq!(parent("C:\\a"), some("C:\\"));
    assert_eq!(parent("C:\\"), None);
    assert_eq!(name("C:"), None);
    assert_eq!(name("C:a"), some("a"));
    assert_eq!(parent("C:a"), some("C:"));
    assert_eq!(parent("C:"), None);
    assert_eq!(name("\\\\s\\h"), None);
    assert_eq!(name("\\\\s\\h\\a"), some("a"));
    assert_eq!(parent("\\\\s\\h\\a"), some("\\\\s\\h\\"));
    assert_eq!(name("\\\\s"), some("s"));
    assert_eq!(name("\\\\s\\"), some("s"));
    assert_eq!(name("\\\\\\a\\id"), some("id"));
    assert_eq!(name("\\\\.\\COM1"), None);
    assert_eq!(name("//./COM1/x"), some("x"));
    assert_eq!(parent("C:.\\a"), some("C:."));
    assert_eq!(parent("C:."), None);
    assert_eq!(path_name('/', "C:"), some("C:"));
    assert_eq!(path_parent('/', "."), some(""));
}

#[test]
fn in_verbatim_paths_only_a_backslash_separates() {
    let name = |path: &str| path_name('\\', path);
    let parent = |path: &str| path_parent('\\', path);
    assert_eq!(name(r"\\?\C:\a"), some("a"));
    assert_eq!(name(r"\\?\C:\a/b"), some("a/b"));
    assert_eq!(name(r"\\?\C:/a"), some("a"));
    assert_eq!(parent(r"\\?\C:\a\\b\"), some(r"\\?\C:\a"));
    assert_eq!(parent(r"\\?\C:\a"), some(r"\\?\C:\"));
    assert_eq!(parent(r"\\?\C:\"), None);
    assert_eq!(name(r"\\?\C:x\a"), some("a"));
    assert_eq!(name(r"\\?\C:x"), None);
    assert_eq!(name(r"\\?\C:\a\."), None);
    assert_eq!(parent(r"\\?\C:\a\."), some(r"\\?\C:\a"));
    assert_eq!(name(r"\\?\C:\a\.."), None);
    assert_eq!(name(r"\\?\UNC\s\h"), None);
    assert_eq!(name(r"\\?\UNC\s\h\a"), some("a"));
    assert_eq!(parent(r"\\?\UNC\s\h\a"), some(r"\\?\UNC\s\h\"));
    assert_eq!(name(r"\\?\UNC\s\\a"), some("a"));
    assert_eq!(name(r"\\?\v"), None);
    assert_eq!(name("//?/C:/a/b"), some("b"));
    assert_eq!(join('\\', r"\\?\C:\a/", "b"), r"\\?\C:\a/\b");
    assert_eq!(join('\\', r"\\?\C:\\a\\\b\", "c"), r"\\?\C:\a\b\c");
    assert_eq!(join('\\', r"\\?\C:/a", "b"), r"\\?\C:\a\b");
    assert_eq!(join('\\', r"\\?\C:", "b"), r"\\?\C:\b");
    assert_eq!(join('\\', r"\\?\C:\", "b"), r"\\?\C:\b");
    assert_eq!(join('\\', r"\\?\UNC\s\h", "b"), r"\\?\UNC\s\h\b");
    assert_eq!(join('/', r"\\?\C:\a/", "b"), r"\\?\C:\a/b");
}

#[test]
fn the_path_of_a_transcript_names_its_conversation() {
    for dir in ["/b/id", "/b/id/", "id", "/b/./id/."] {
        let lineage = path_lineage('/', &transcript_path('/', dir));
        assert_eq!(
            lineage[0..4],
            [some("transcript.jsonl"), some("logs"), some(".system_generated"), some("id")]
        );
    }
    for dir in ["C:id", r"\\\a\id", r"\\s\\id", r"\\s\h\id\", r"\\?\C:\\id\", r"\\?\UNC\s\\x\id"] {
        let lineage = path_lineage('\\', &transcript_path('\\', dir));
        assert_eq!(lineage[2..4], [some(".system_generated"), some("id")], "{dir}");
    }
    assert_eq!(path_lineage('\\', &transcript_path('\\', r"\\s"))[2], None);
}
