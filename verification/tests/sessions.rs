use wake_core::adapter::{AntigravityAdapter, RootProbes};
use wake_core::models::{AgentId, Role, SessionFileRef};
use wake_core::plain::PlainConventions;
use wake_core::sessions::{
    needs_store, AntigravityError, BrainEntry, FileFacts, OpenTranscript, SessionSource,
};
use wake_core::store::AgRow;
use wake_core::transcript::{parse_antigravity_jsonl, AntigravityIdeParse};

fn rules() -> PlainConventions {
    PlainConventions { max_msg_text: 1000, max_tool_io: 1000, untitled: "Untitled".to_string() }
}

fn adapter() -> AntigravityAdapter {
    AntigravityAdapter::new('/', "/h", true, false)
}

fn summary(id: &str, title: &str, preview: &str, modified_ms: i64) -> AgRow {
    AgRow {
        id: id.to_string(),
        title: title.to_string(),
        preview: preview.to_string(),
        step_count: 4,
        modified_ms,
        cwd: "/w/proj".to_string(),
    }
}

fn reference(id: &str, path: &str) -> SessionFileRef {
    SessionFileRef {
        agent: AgentId::Antigravity,
        native_id: id.to_string(),
        file_path: path.to_string(),
        mtime_ms: 77,
        size: 12,
    }
}

fn entry(name: &str, is_dir: bool, transcript: Option<FileFacts>) -> BrainEntry {
    BrainEntry { name: name.to_string(), path: format!("/b/{}", name), is_dir, transcript }
}

fn file(len: u64) -> Option<FileFacts> {
    Some(FileFacts { is_file: true, len, mtime_ms: 5 })
}

fn parsed(lines: &[&str]) -> AntigravityIdeParse {
    let lines: Vec<Option<String>> = lines.iter().map(|l| Some(l.to_string())).collect();
    parse_antigravity_jsonl(&rules(), &lines)
}

fn store(rows: Vec<AgRow>) -> SessionSource {
    SessionSource { rows: Some(rows), transcript: Err("no file".to_string()) }
}

fn transcript(parsed: AntigravityIdeParse) -> SessionSource {
    SessionSource { rows: None, transcript: Ok(OpenTranscript { parsed, project_is_file: false }) }
}

fn nothing() -> SessionSource {
    SessionSource { rows: None, transcript: Err("no file".to_string()) }
}

fn probes() -> RootProbes {
    RootProbes {
        is_file: false,
        brain_is_dir: false,
        ide_brain_is_dir: false,
        nested_db_is_file: false,
        db_is_file: false,
        projects_is_file: false,
    }
}

#[test]
fn the_default_roots_are_those_of_the_home() {
    assert_eq!(
        adapter().data_roots(),
        vec![
            "/h/.gemini/antigravity-ide/brain".to_string(),
            "/h/.gemini/antigravity-cli/conversation_summaries.db".to_string(),
        ]
    );
    assert_eq!(adapter().projects_file(), "/h/.gemini/projects.json");
    assert_eq!(adapter().agent(), AgentId::Antigravity);
    let old = AntigravityAdapter::new('/', "/h", false, true);
    assert_eq!(old.brain_root(), Some(&"/h/.gemini/antigravity/brain".to_string()));
    let none = AntigravityAdapter::new('/', "", false, false);
    assert_eq!(none.brain_root(), Some(&".gemini/antigravity-ide/brain".to_string()));
    let both = AntigravityAdapter::new('\\', "C:\\u", true, true);
    assert_eq!(both.brain_root(), Some(&"C:\\u\\.gemini\\antigravity-ide\\brain".to_string()));
}

#[test]
fn a_named_directory_gives_roots() {
    let roots = |p: RootProbes| adapter().with_custom_root('/', "/d", &p, "/h").data_roots();
    assert_eq!(roots(RootProbes { is_file: true, ..probes() }), vec!["/d".to_string()]);
    let named = adapter().with_custom_root('/', "/x/brain", &probes(), "/h");
    assert_eq!(named.brain_root(), Some(&"/x/brain".to_string()));
    assert_eq!(named.cli_db(), None);
    let slashed = adapter().with_custom_root('/', "/x/brain/", &probes(), "/h");
    assert_eq!(slashed.brain_root(), Some(&"/x/brain/".to_string()));
    let drive = adapter().with_custom_root('\\', "C:brain", &probes(), "C:\\u");
    assert_eq!(drive.brain_root(), Some(&"C:brain".to_string()));
    let below = RootProbes { brain_is_dir: true, ..probes() };
    let below = adapter().with_custom_root('\\', "C:", &below, "C:\\u");
    assert_eq!(below.brain_root(), Some(&"C:brain".to_string()));
    assert_eq!(
        roots(RootProbes { brain_is_dir: true, ide_brain_is_dir: true, ..probes() }),
        vec!["/d/brain".to_string()]
    );
    assert_eq!(
        roots(RootProbes { ide_brain_is_dir: true, nested_db_is_file: true, ..probes() }),
        vec![
            "/d/antigravity-ide/brain".to_string(),
            "/d/antigravity-cli/conversation_summaries.db".to_string(),
        ]
    );
    assert_eq!(
        roots(RootProbes { ide_brain_is_dir: true, db_is_file: true, ..probes() }),
        vec!["/d/antigravity-ide/brain".to_string()]
    );
    assert_eq!(
        roots(RootProbes { db_is_file: true, nested_db_is_file: true, ..probes() }),
        vec!["/d/conversation_summaries.db".to_string()]
    );
    assert_eq!(
        roots(RootProbes { nested_db_is_file: true, ..probes() }),
        vec!["/d/antigravity-cli/conversation_summaries.db".to_string()]
    );
    assert_eq!(roots(probes()), vec!["/d/conversation_summaries.db".to_string()]);
}

#[test]
fn a_named_directory_may_have_its_own_projects() {
    let own = RootProbes { projects_is_file: true, ..probes() };
    assert_eq!(adapter().with_custom_root('/', "/d", &own, "/h").projects_file(), "/d/projects.json");
    assert_eq!(
        adapter().with_custom_root('/', "/d", &probes(), "/h").projects_file(),
        "/h/.gemini/projects.json"
    );
}

#[test]
fn a_named_directory_is_the_same_for_every_adapter() {
    let mut used = AntigravityAdapter::new('\\', "C:\\u", false, true);
    used.rows(1, Some(vec![summary("a", "", "", 1)]));
    let found = used.with_custom_root('/', "/d", &probes(), "/h");
    let other = adapter().with_custom_root('/', "/d", &probes(), "/h");
    assert_eq!(found.data_roots(), other.data_roots());
    assert_eq!(found.projects_file(), other.projects_file());
    assert_eq!(found.separator(), other.separator());
    assert!(!found.rows_are_cached(1));
}

#[test]
fn transcripts_come_before_summaries() {
    let entries = vec![
        entry("one", true, file(3)),
        entry(".hidden", true, file(3)),
        entry("tempmediaStorage", true, file(3)),
        entry("plain", false, file(3)),
        entry("empty", true, file(0)),
        entry("dir", true, Some(FileFacts { is_file: false, len: 9, mtime_ms: 1 })),
        entry("none", true, None),
        entry("two", true, file(8)),
    ];
    let rows = Some(vec![
        summary("two", "t", "", 1),
        summary("three", "té", "pr", 2),
        summary("empty", "", "", 3),
    ]);
    let refs = adapter().list_session_files(&entries, &rows);
    let ids: Vec<&str> = refs.iter().map(|r| r.native_id.as_str()).collect();
    assert_eq!(ids, vec!["one", "two", "three", "empty"]);
    assert_eq!(refs[0].file_path, "/b/one/.system_generated/logs/transcript.jsonl");
    assert_eq!(refs[0].mtime_ms, 5);
    assert_eq!(refs[0].size, 3);
    assert_eq!(
        refs[2].file_path,
        "/h/.gemini/antigravity-cli/conversation_summaries.db#three"
    );
    assert_eq!(refs[2].mtime_ms, 2);
    assert_eq!(refs[2].size, 5);
}

#[test]
fn without_roots_nothing_is_listed() {
    let ide = adapter().with_custom_root('/', "/brain", &probes(), "");
    let cli = adapter().with_custom_root('/', "/f", &RootProbes { is_file: true, ..probes() }, "");
    let entries = vec![entry("one", true, file(3))];
    let rows = Some(vec![summary("two", "", "", 1)]);
    assert_eq!(ide.list_session_files(&entries, &rows).len(), 1);
    assert_eq!(cli.list_session_files(&entries, &rows).len(), 1);
    assert_eq!(cli.list_session_files(&entries, &None).len(), 0);
}

#[test]
fn file_ref_agrees_with_listing() {
    let refs = adapter().list_session_files(&vec![entry("one", true, file(3))], &None);
    let found = adapter().file_ref(&refs[0].file_path, file(3)).unwrap();
    assert_eq!(found.native_id, refs[0].native_id);
    assert_eq!(found.file_path, refs[0].file_path);
    assert_eq!(found.mtime_ms, refs[0].mtime_ms);
    assert_eq!(found.size, refs[0].size);
}

#[test]
fn other_paths_are_no_transcripts() {
    let at = |path: &str, facts: Option<FileFacts>| adapter().file_ref(path, facts).is_some();
    let good = "/b/id/.system_generated/logs/transcript.jsonl";
    assert!(at(good, file(1)));
    assert!(!at(good, file(0)));
    assert!(!at(good, None));
    assert!(at("id/.system_generated//logs/./transcript.jsonl/", file(1)));
    assert!(!at(".system_generated/logs/transcript.jsonl", file(1)));
    assert!(!at("/.system_generated/logs/transcript.jsonl", file(1)));
    assert!(!at("../.system_generated/logs/transcript.jsonl", file(1)));
    assert!(!at("./.system_generated/logs/transcript.jsonl", file(1)));
    assert!(!at("/b/id/.system_generated/logs/other.jsonl", file(1)));
    assert!(!at("/b/id/.system_generated/log/transcript.jsonl", file(1)));
    assert!(!at("/b/id/system_generated/logs/transcript.jsonl", file(1)));
    assert!(!at("/b/.id/.system_generated/logs/transcript.jsonl", file(1)));
    assert!(!at("/b/tempmediaStorage/.system_generated/logs/transcript.jsonl", file(1)));
    assert!(!at("transcript.jsonl", file(1)));
    assert!(!at("", file(1)));
    let found = adapter().file_ref(good, file(7)).unwrap();
    assert_eq!(found.native_id, "id");
    assert_eq!(found.file_path, good);
}

#[test]
fn a_summary_is_read_from_the_store() {
    let r = reference("b", "/s.db#b");
    let rows = vec![summary("a", "A", "", 1), summary("b", " Title \nx", " pre ", 9)];
    let (meta, messages, unknown) = adapter().parse(&rules(), &r, store(rows), true).unwrap();
    assert_eq!(meta.key, "antigravity:b");
    assert_eq!(meta.host, "");
    assert_eq!(meta.id, "b");
    assert_eq!(meta.agent, AgentId::Antigravity);
    assert_eq!(meta.title, "Title");
    assert_eq!(meta.project_path, "/w/proj");
    assert_eq!(meta.project_name, "proj");
    assert_eq!(meta.file_path, "/s.db#b");
    assert_eq!(meta.created_at, 9);
    assert_eq!(meta.updated_at, 9);
    assert_eq!(meta.message_count, 4);
    assert_eq!(meta.size_bytes, 12);
    assert!(meta.model.is_none() && meta.git_branch.is_none() && meta.tokens_used.is_none());
    assert!(!meta.archived && !meta.favorite && !meta.pinned && meta.source.is_none());
    assert_eq!(unknown, 0);
    assert_eq!(messages.len(), 1);
    assert_eq!(messages[0].seq, 0);
    assert_eq!(messages[0].role, Role::System);
    assert_eq!(
        messages[0].text,
        "pre\n\nAntigravity stores conversation content encrypted — only this summary is available in Wake."
    );
    assert_eq!(messages[0].timestamp, Some(9));
}

#[test]
fn a_summary_may_lack_title_preview_and_time() {
    let r = reference("a", "/s.db#a");
    let titled = |title: &str, preview: &str| {
        adapter().build_cli_meta(&rules(), &r, &summary("a", title, preview, 0)).title
    };
    assert_eq!(titled("", "the preview"), "the preview");
    assert_eq!(titled("", " "), "Untitled");
    let rows = vec![summary("a", "", "", 0)];
    let (meta, messages, _) = adapter().parse(&rules(), &r, store(rows), false).unwrap();
    assert_eq!(meta.created_at, 77);
    assert_eq!(meta.updated_at, 77);
    assert_eq!(
        messages[0].text,
        "Antigravity stores conversation content encrypted — only this summary is available in Wake."
    );
    assert_eq!(messages[0].timestamp, None);
}

#[test]
fn errors_say_what_is_wrong() {
    let r = reference("x", "/s.db#x");
    let error = adapter().parse(&rules(), &r, nothing(), false).unwrap_err();
    assert!(matches!(error, AntigravityError::StoreUnavailable));
    assert_eq!(error.message(), "cannot open antigravity summaries store");
    let error = adapter().parse(&rules(), &r, store(Vec::new()), false).unwrap_err();
    assert!(matches!(error, AntigravityError::NotInStore(_)));
    assert_eq!(error.message(), "antigravity conversation x not in store");
    let error =
        adapter().parse(&rules(), &reference("x", "/t.jsonl"), nothing(), false).unwrap_err();
    assert!(matches!(error, AntigravityError::TranscriptUnreadable(_)));
    assert_eq!(error.message(), "no file");
}

#[test]
fn a_transcript_is_read() {
    let r = reference("id", "/b/id/.system_generated/logs/transcript.jsonl");
    assert!(!needs_store(&r));
    let parse = parsed(&[
        r#"{"type":"USER_INPUT","content":"Hello there","created_at":"1970-01-01T00:00:02Z"}"#,
        r#"{"type":"ODD"}"#,
    ]);
    let (meta, messages, unknown) =
        adapter().parse(&rules(), &r, transcript(parse), false).unwrap();
    assert_eq!(meta.key, "antigravity:id");
    assert_eq!(meta.title, "Hello there");
    assert_eq!(meta.project_path, "");
    assert_eq!(meta.project_name, "");
    assert_eq!(meta.created_at, 2000);
    assert_eq!(meta.updated_at, 2000);
    assert_eq!(meta.message_count, 1);
    assert_eq!(meta.size_bytes, 12);
    assert_eq!(messages[0].text, "Hello there");
    assert_eq!(unknown, 1);
}

#[test]
fn an_empty_transcript_takes_the_time_of_its_file() {
    let r = reference("id", "/t");
    let meta = adapter().build_ide_meta(&rules(), &r, &parsed(&[]), false);
    assert_eq!(meta.title, "Untitled");
    assert_eq!(meta.created_at, 77);
    assert_eq!(meta.updated_at, 77);
    assert_eq!(meta.message_count, 0);
}

#[test]
fn the_project_of_a_transcript_is_a_directory() {
    let r = reference("id", "/t");
    let doc = parsed(&[r#"{"type":"USER_INPUT","content":"Active Document: /P/app/src/a.rs"}"#]);
    let bare = parsed(&[r#"{"type":"USER_INPUT","content":"Active Document: /P/app/Makefile"}"#]);
    let mut adapter = adapter();
    let project = |adapter: &AntigravityAdapter, parse: &AntigravityIdeParse, is_file: bool| {
        adapter.build_ide_meta(&rules(), &r, parse, is_file).project_path
    };
    assert_eq!(project(&adapter, &doc, false), "/P/app/src");
    assert_eq!(project(&adapter, &doc, true), "/P/app/src");
    assert_eq!(project(&adapter, &bare, false), "/P/app/Makefile");
    assert_eq!(project(&adapter, &bare, true), "/P/app");
    let root = parsed(&[r#"{"type":"USER_INPUT","content":"Active Document: /"}"#]);
    assert_eq!(project(&adapter, &root, true), "/");
    adapter.projects_map(1, Some(r#"{"projects":{"/p":"x","/p/APP":"y"}}"#));
    assert_eq!(project(&adapter, &doc, false), "/p/APP");
}

#[test]
fn projects_are_kept_for_their_stamp() {
    let mut adapter = adapter();
    assert_eq!(adapter.lookup_project_path("/a/b"), None);
    assert!(!adapter.projects_are_cached(1));
    assert_eq!(adapter.projects_map(1, Some(r#"{"projects":{"/a":"n"}}"#)).len(), 1);
    assert!(adapter.projects_are_cached(1));
    assert_eq!(adapter.projects_map(1, None).len(), 1);
    assert_eq!(adapter.lookup_project_path("/A/b"), Some("/a".to_string()));
    assert_eq!(adapter.lookup_project_path(""), None);
    assert_eq!(adapter.projects_map(2, None).len(), 0);
    assert_eq!(adapter.lookup_project_path("/a/b"), None);
}

#[test]
fn rows_are_kept_for_their_stamp() {
    let mut adapter = adapter();
    assert!(adapter.rows(1, None).is_none());
    assert!(!adapter.rows_are_cached(1));
    assert_eq!(adapter.rows(1, Some(vec![summary("a", "", "", 1)])).unwrap().len(), 1);
    assert!(adapter.rows_are_cached(1));
    assert_eq!(adapter.rows(1, None).unwrap()[0].id, "a");
    assert!(adapter.rows(2, None).is_none());
    assert!(adapter.rows_are_cached(1));
    assert_eq!(adapter.rows(2, Some(Vec::new())).unwrap().len(), 0);
    let mut ide = adapter.with_custom_root('/', "/brain", &probes(), "");
    assert!(ide.rows(1, Some(Vec::new())).is_none());
}

#[test]
fn quick_meta_agrees_with_reading() {
    let rows = vec![summary("a", "A", "", 3), summary("b", "B", "", 4)];
    let refs = vec![
        reference("b", "/s.db#b"),
        reference("b", "/b/b/transcript.jsonl"),
        reference("c", "/s.db#c"),
    ];
    let quick = adapter().quick_meta(&rules(), &refs, &Some(rows.clone())).unwrap();
    assert_eq!(quick.len(), 1);
    assert_eq!(quick[0].0, "/s.db#b");
    let (meta, _, _) = adapter().parse(&rules(), &refs[0], store(rows), false).unwrap();
    assert_eq!(quick[0].1.title, meta.title);
    assert_eq!(quick[0].1.key, meta.key);
    assert_eq!(quick[0].1.created_at, meta.created_at);
    assert!(adapter().quick_meta(&rules(), &refs, &None).is_none());
}

#[test]
fn of_two_references_with_one_path_the_later_counts() {
    let rows = vec![summary("a", "A", "", 3), summary("b", "B", "", 4)];
    let refs = vec![
        reference("a", "/s.db#x"),
        reference("b", "/s.db#y"),
        reference("b", "/s.db#x"),
        reference("c", "/s.db#x"),
    ];
    let quick = adapter().quick_meta(&rules(), &refs, &Some(rows)).unwrap();
    let shown: Vec<(&str, &str)> =
        quick.iter().map(|(path, meta)| (path.as_str(), meta.title.as_str())).collect();
    assert_eq!(shown, vec![("/s.db#x", "B"), ("/s.db#y", "B")]);
}

#[test]
fn of_two_summaries_reading_takes_the_first_and_the_list_the_last() {
    let rows = vec![summary("a", "first", "", 3), summary("a", "last", "", 4)];
    let r = reference("a", "/s.db#a");
    let quick = adapter().quick_meta(&rules(), &vec![r.clone()], &Some(rows.clone())).unwrap();
    assert_eq!(quick[0].1.title, "last");
    let (meta, _, _) = adapter().parse(&rules(), &r, store(rows), false).unwrap();
    assert_eq!(meta.title, "first");
}

#[test]
fn a_listed_summary_can_be_read() {
    let rows = vec![summary("a", "A", "", 3)];
    let refs = adapter().list_session_files(&Vec::new(), &Some(rows.clone()));
    assert!(needs_store(&refs[0]));
    assert!(adapter().parse(&rules(), &refs[0], store(rows), false).is_ok());
}

#[test]
fn index_and_transcript_agree() {
    let r = reference("id", "/t");
    let line = r#"{"type":"USER_INPUT","content":"one"}"#;
    let session = adapter()
        .parse_session(&rules(), &r, transcript(parsed(&[line, "?"])))
        .unwrap();
    let read = adapter()
        .parse_transcript(&rules(), &r, transcript(parsed(&[line, "?"])))
        .unwrap();
    assert_eq!(session.meta.title, read.meta.title);
    assert_eq!(session.unknown_line_count, 1);
    assert_eq!(read.unknown_line_count, 1);
    assert_eq!(session.units.len(), 1);
    assert_eq!(session.units[0].seq, 0);
    assert_eq!(session.units[0].text, "one");
    assert_eq!(read.mainline[0].text, "one");
    assert_eq!(read.sidechains.len(), 0);
    assert!(adapter().parse_session(&rules(), &r, nothing()).is_err());
    assert!(adapter().parse_transcript(&rules(), &r, nothing()).is_err());
}

#[test]
fn a_session_takes_up_its_directory() {
    let r = reference("id", "/b/id/.system_generated/logs/transcript.jsonl");
    let meta = adapter().build_ide_meta(&rules(), &r, &parsed(&[]), false);
    assert_eq!(adapter().session_dir(&meta), Some("/b/id".to_string()));
    assert_eq!(adapter().session_paths(&meta, true), vec!["/b/id".to_string()]);
    assert_eq!(adapter().session_paths(&meta, false), vec![r.file_path.clone()]);
    let r = reference("id", "/s/t/u/v.db#id");
    let meta = adapter().build_cli_meta(&rules(), &r, &summary("id", "", "", 0));
    assert_eq!(adapter().session_paths(&meta, true), vec!["/s/t/u/v.db#id".to_string()]);
    let r = reference("id", "/transcript.jsonl");
    let meta = adapter().build_cli_meta(&rules(), &r, &summary("id", "", "", 0));
    assert_eq!(adapter().session_dir(&meta), None);
    assert_eq!(adapter().session_paths(&meta, true), vec!["/transcript.jsonl".to_string()]);
}

#[test]
fn no_conversation_is_listed_twice() {
    let entries = vec![entry("a", true, file(1)), entry("b", true, file(0))];
    let rows = Some(vec![summary("a", "", "", 1), summary("b", "", "", 1)]);
    let refs = adapter().list_session_files(&entries, &rows);
    assert_eq!(refs.len(), 2);
    assert_eq!(refs[0].file_path, "/b/a/.system_generated/logs/transcript.jsonl");
    assert!(needs_store(&refs[1]));
    assert_eq!(refs[1].native_id, "b");
}

#[test]
fn every_conversation_is_listed() {
    let entries = vec![entry("a", true, file(1)), entry("b", true, file(2))];
    let rows = Some(vec![summary("b", "", "", 1), summary("c", "", "", 1)]);
    let refs = adapter().list_session_files(&entries, &rows);
    for id in ["a", "b", "c"] {
        assert!(refs.iter().any(|r| r.native_id == id));
    }
}

#[test]
fn a_listed_transcript_is_read_as_one() {
    let refs = adapter().list_session_files(&vec![entry("a", true, file(1))], &None);
    assert!(!needs_store(&refs[0]));
    let refs = adapter().list_session_files(&vec![entry("a#b", true, file(1))], &None);
    assert!(needs_store(&refs[0]));
}

#[test]
fn every_session_has_a_title() {
    let r = reference("a", "/s.db#a");
    let (meta, _, _) =
        adapter().parse(&rules(), &r, store(vec![summary("a", " ", "", 0)]), false).unwrap();
    assert_eq!(meta.title, "Untitled");
}
