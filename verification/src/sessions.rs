//! The sessions of the agent: finding them, and reading one.

use crate::adapter::{AdapterModel, AntigravityAdapter};
use crate::conventions::Conventions;
use crate::layout;
use crate::layout::{transcript_path, virtual_path};
use crate::models;
use crate::models::{
    assign_seq, AgentId, MessageModel, MetaModel, ParsedSession, ParsedTranscript, RefModel, Role,
    SessionFileRef, SessionMeta, TranscriptMessage,
};
use crate::pairs;
use crate::pairs::put;
use crate::paths;
use crate::paths::{path_has_extension, path_lineage, path_parent, path_third_parent};
use crate::projects;
use crate::row;
use crate::store::{AgRow, AgRowModel};
use crate::text;
use crate::text::{chars_of, ends_with, has_char, same_text, trim_text};
use crate::transcript::{AntigravityIdeParse, IdeParseModel};
use vstd::prelude::*;

verus! {

/// Why a session could not be read.
#[derive(Debug)]
pub enum AntigravityError {
    /// The database of summaries could not be read.
    StoreUnavailable,
    /// There is no summary of the conversation with this identifier.
    NotInStore(String),
    /// The transcript could not be opened, for this reason.
    TranscriptUnreadable(String),
}

/// The model of why a session could not be read.
#[verifier::ext_equal]
pub enum ErrorModel {
    StoreUnavailable,
    NotInStore(Seq<char>),
    TranscriptUnreadable(Seq<char>),
}

impl DeepView for AntigravityError {
    type V = ErrorModel;

    open spec fn deep_view(&self) -> ErrorModel {
        match *self {
            AntigravityError::StoreUnavailable => ErrorModel::StoreUnavailable,
            AntigravityError::NotInStore(id) => ErrorModel::NotInStore(id@),
            AntigravityError::TranscriptUnreadable(why) => ErrorModel::TranscriptUnreadable(why@),
        }
    }
}

/// What an error says.
pub open spec fn error_text(error: ErrorModel) -> Seq<char> {
    match error {
        ErrorModel::StoreUnavailable => "cannot open antigravity summaries store"@,
        ErrorModel::NotInStore(id) => "antigravity conversation "@ + id + " not in store"@,
        ErrorModel::TranscriptUnreadable(why) => why,
    }
}

impl AntigravityError {
    /// What the error says.
    pub fn message(&self) -> (r: String)
        ensures
            r@ == error_text(self.deep_view()),
    {
        match self {
            AntigravityError::StoreUnavailable => {
                "cannot open antigravity summaries store".to_string()
            },
            AntigravityError::NotInStore(id) => {
                let mut text = "antigravity conversation ".to_string();
                text.push_str(id.as_str());
                text.push_str(" not in store");
                text
            },
            AntigravityError::TranscriptUnreadable(why) => why.clone(),
        }
    }
}

/// The key of a session among those of all agents.
pub open spec fn session_key(id: Seq<char>) -> Seq<char> {
    "antigravity:"@ + id
}

/// A time, and another where it is not positive.
pub open spec fn time_or(time: i64, other: i64) -> i64 {
    if time > 0 {
        time
    } else {
        other
    }
}

/// The title of a summary: its own, cleaned, else its preview, cleaned, else
/// that of a session that has none.
pub open spec fn summary_title<C: Conventions>(rules: &C, row: AgRowModel) -> Seq<char> {
    if rules.title_of(row.title).len() > 0 {
        rules.title_of(row.title)
    } else if rules.title_of(row.preview).len() > 0 {
        rules.title_of(row.preview)
    } else {
        rules.no_title()
    }
}

/// What the list of sessions shows of a conversation that there is only a
/// summary of.
pub open spec fn cli_meta<C: Conventions>(rules: &C, r: RefModel, row: AgRowModel) -> MetaModel {
    MetaModel {
        key: session_key(row.id),
        host: Seq::empty(),
        id: row.id,
        agent: AgentId::Antigravity,
        title: summary_title(rules, row),
        project_path: row.cwd,
        project_name: rules.project_of(row.cwd),
        file_path: r.file_path,
        created_at: time_or(row.modified_ms, r.mtime_ms),
        updated_at: time_or(row.modified_ms, r.mtime_ms),
        message_count: row.step_count,
        size_bytes: r.size,
        git_branch: None,
        model: None,
        tokens_used: None,
        archived: false,
        source: None,
        favorite: false,
        pinned: false,
    }
}

/// The title of a transcript: its own, cleaned, else that of a session that has
/// none.
pub open spec fn transcript_title<C: Conventions>(rules: &C, title: Option<Seq<char>>) -> Seq<
    char,
> {
    match title {
        Some(t) => if t.len() > 0 && rules.title_of(t).len() > 0 {
            rules.title_of(t)
        } else {
            rules.no_title()
        },
        None => rules.no_title(),
    }
}

/// The directory that a transcript tells the project by: that of a file, where
/// there is one at the path or the path looks like that of one.
pub open spec fn told_dir(separator: char, path: Option<Seq<char>>, is_file: bool) -> Seq<char> {
    let told = row::or_empty(path);
    if told.len() > 0 && (is_file || paths::has_extension(separator, told)) {
        match paths::parent(separator, told) {
            Some(above) => above,
            None => told,
        }
    } else {
        told
    }
}

/// The directory of the project of a transcript: that of the project that the
/// told one belongs to, else the told one.
pub open spec fn transcript_project(
    adapter: AdapterModel,
    path: Option<Seq<char>>,
    is_file: bool,
) -> Seq<char> {
    let told = told_dir(adapter.separator, path, is_file);
    match projects::project_path_of(adapter.projects(), told) {
        Some(project) => project,
        None => told,
    }
}

/// What the list of sessions shows of a conversation that there is a transcript
/// of.
pub open spec fn ide_meta<C: Conventions>(
    adapter: AdapterModel,
    rules: &C,
    r: RefModel,
    parsed: IdeParseModel,
    is_file: bool,
) -> MetaModel {
    let project = transcript_project(adapter, parsed.project_path, is_file);
    MetaModel {
        key: session_key(r.native_id),
        host: Seq::empty(),
        id: r.native_id,
        agent: AgentId::Antigravity,
        title: transcript_title(rules, parsed.title),
        project_path: project,
        project_name: rules.project_of(project),
        file_path: r.file_path,
        created_at: time_or(parsed.created_at, r.mtime_ms),
        updated_at: time_or(parsed.updated_at, r.mtime_ms),
        message_count: parsed.messages.len() as i64,
        size_bytes: r.size,
        git_branch: None,
        model: parsed.model,
        tokens_used: None,
        archived: false,
        source: None,
        favorite: false,
        pinned: false,
    }
}

/// The place of the first summary with the given identifier.
pub open spec fn first_row(rows: Seq<AgRowModel>, id: Seq<char>) -> Option<int>
    decreases rows.len(),
{
    if rows.len() == 0 {
        None
    } else {
        match first_row(rows.drop_last(), id) {
            Some(i) => Some(i),
            None => if rows.last().id == id {
                Some(rows.len() - 1)
            } else {
                None
            },
        }
    }
}

/// The place of the last summary with the given identifier.
pub open spec fn last_row(rows: Seq<AgRowModel>, id: Seq<char>) -> Option<int>
    decreases rows.len(),
{
    if rows.len() == 0 {
        None
    } else if rows.last().id == id {
        Some(rows.len() - 1)
    } else {
        last_row(rows.drop_last(), id)
    }
}

/// What stands for a conversation that there is only a summary of: its preview,
/// where there is one, and a remark.
pub open spec fn summary_text(preview: Seq<char>) -> Seq<char> {
    if text::trimmed(preview).len() > 0 {
        text::trimmed(preview) + "\n\n"@ + encrypted_note()
    } else {
        encrypted_note()
    }
}

/// The remark that there is no more than a summary.
pub open spec fn encrypted_note() -> Seq<char> {
    "Antigravity stores conversation content encrypted — only this summary is available in Wake."@
}

/// What comes of reading a session: what the list shows of it, its messages and
/// the number of lines that said nothing known, or why it could not be read.
pub type Outcome = Result<(MetaModel, Seq<MessageModel>, int), ErrorModel>;

/// What comes of reading a conversation that there is only a summary of.
pub open spec fn summary_outcome<C: Conventions>(
    rules: &C,
    r: RefModel,
    rows: Option<Seq<AgRowModel>>,
) -> Outcome {
    match rows {
        None => Err(ErrorModel::StoreUnavailable),
        Some(rows) => match first_row(rows, r.native_id) {
            None => Err(ErrorModel::NotInStore(r.native_id)),
            Some(i) => Ok(
                (
                    cli_meta(rules, r, rows[i]),
                    models::numbered(
                        seq![
                            rules.note(
                                Role::System,
                                summary_text(rows[i].preview),
                                rows[i].modified_ms,
                            ),
                        ],
                    ),
                    0,
                ),
            ),
        },
    }
}

/// A transcript that has been read.
pub struct OpenTranscript {
    pub parsed: AntigravityIdeParse,
    /// There is a file at the path that the transcript tells the project by.
    pub project_is_file: bool,
}

/// What a session may be read from. Which of the two it is read from is told by
/// the reference to it.
pub struct SessionSource {
    /// The summaries of the store; `None` where they could not be had.
    pub rows: Option<Vec<AgRow>>,
    /// The transcript, or why it could not be opened.
    pub transcript: Result<OpenTranscript, String>,
}

/// What comes of reading a conversation that there is a transcript of.
pub open spec fn transcript_outcome<C: Conventions>(
    adapter: AdapterModel,
    rules: &C,
    r: RefModel,
    transcript: Result<OpenTranscript, String>,
) -> Outcome {
    match transcript {
        Ok(t) => Ok(
            (
                ide_meta(adapter, rules, r, t.parsed.deep_view(), t.project_is_file),
                t.parsed.deep_view().messages,
                t.parsed.deep_view().unknown_lines,
            ),
        ),
        Err(why) => Err(ErrorModel::TranscriptUnreadable(why@)),
    }
}

/// Whether a reference is to a summary in the store.
pub open spec fn is_virtual(r: RefModel) -> bool {
    r.file_path.contains('#')
}

/// What comes of reading a session: a reference to a summary is read from the
/// store, any other from the transcript.
pub open spec fn outcome_of<C: Conventions>(
    adapter: AdapterModel,
    rules: &C,
    r: RefModel,
    source: SessionSource,
) -> Outcome {
    if is_virtual(r) {
        summary_outcome(rules, r, source.rows.deep_view())
    } else {
        transcript_outcome(adapter, rules, r, source.transcript)
    }
}

/// What there is at a path.
#[derive(Clone, Copy)]
pub struct FileFacts {
    pub is_file: bool,
    pub len: u64,
    pub mtime_ms: i64,
}

/// An entry of the directory of conversations.
pub struct BrainEntry {
    /// Its name.
    pub name: String,
    /// Its path.
    pub path: String,
    pub is_dir: bool,
    /// What there is at the path of its transcript, where there is anything.
    pub transcript: Option<FileFacts>,
}

/// The model of an entry of the directory of conversations.
#[verifier::ext_equal]
pub struct EntryModel {
    pub name: Seq<char>,
    pub path: Seq<char>,
    pub is_dir: bool,
    pub transcript: Option<FileFacts>,
}

impl DeepView for BrainEntry {
    type V = EntryModel;

    open spec fn deep_view(&self) -> EntryModel {
        EntryModel {
            name: self.name@,
            path: self.path@,
            is_dir: self.is_dir,
            transcript: self.transcript,
        }
    }
}

/// Whether a name is one that no conversation has.
pub open spec fn is_reserved(name: Seq<char>) -> bool {
    (name.len() > 0 && name[0] == '.') || name == "tempmediaStorage"@
}

/// The reference to the transcript at a path, where there is a file that is not
/// empty.
pub open spec fn transcript_ref(
    id: Seq<char>,
    path: Seq<char>,
    facts: Option<FileFacts>,
) -> Option<RefModel> {
    match facts {
        Some(f) => if !is_reserved(id) && f.is_file && f.len > 0 {
            Some(
                RefModel {
                    agent: AgentId::Antigravity,
                    native_id: id,
                    file_path: path,
                    mtime_ms: f.mtime_ms,
                    size: f.len as i64,
                },
            )
        } else {
            None
        },
        None => None,
    }
}

/// The reference to the transcript of an entry.
pub open spec fn entry_ref(separator: char, entry: EntryModel) -> Option<RefModel> {
    if entry.is_dir {
        transcript_ref(
            entry.name,
            layout::transcript_file(separator, entry.path),
            entry.transcript,
        )
    } else {
        None
    }
}

/// The references to the transcripts of entries, in their order.
pub open spec fn ide_refs(separator: char, entries: Seq<EntryModel>) -> Seq<RefModel>
    decreases entries.len(),
{
    if entries.len() == 0 {
        Seq::empty()
    } else {
        match entry_ref(separator, entries.last()) {
            Some(r) => ide_refs(separator, entries.drop_last()).push(r),
            None => ide_refs(separator, entries.drop_last()),
        }
    }
}

/// Whether one of the references is to the conversation.
pub open spec fn has_id(refs: Seq<RefModel>, id: Seq<char>) -> bool {
    exists|i: int| #![trigger refs[i]] 0 <= i < refs.len() && refs[i].native_id == id
}

/// How large a summary counts as: the bytes of its title and its preview.
pub open spec fn summary_size(row: AgRowModel) -> i64 {
    (vstd::utf8::encode_utf8(row.title).len() as usize + vstd::utf8::encode_utf8(
        row.preview,
    ).len() as usize) as i64
}

/// The reference to a summary.
pub open spec fn summary_ref(db: Seq<char>, row: AgRowModel) -> RefModel {
    RefModel {
        agent: AgentId::Antigravity,
        native_id: row.id,
        file_path: layout::entry_path(db, row.id),
        mtime_ms: row.modified_ms,
        size: summary_size(row),
    }
}

/// The references to the summaries of conversations that there is no transcript
/// of, in their order.
pub open spec fn cli_refs(
    db: Seq<char>,
    rows: Seq<AgRowModel>,
    transcripts: Seq<RefModel>,
) -> Seq<RefModel>
    decreases rows.len(),
{
    if rows.len() == 0 {
        Seq::empty()
    } else if has_id(transcripts, rows.last().id) {
        cli_refs(db, rows.drop_last(), transcripts)
    } else {
        cli_refs(db, rows.drop_last(), transcripts).push(summary_ref(db, rows.last()))
    }
}

/// The references to transcripts that an adapter lists.
pub open spec fn listed_transcripts(adapter: AdapterModel, entries: Seq<EntryModel>) -> Seq<
    RefModel,
> {
    match adapter.brain_root {
        Some(_) => ide_refs(adapter.separator, entries),
        None => Seq::empty(),
    }
}

/// The references to summaries that an adapter lists.
pub open spec fn listed_summaries(
    adapter: AdapterModel,
    rows: Option<Seq<AgRowModel>>,
    transcripts: Seq<RefModel>,
) -> Seq<RefModel> {
    match (adapter.cli_db, rows) {
        (Some(db), Some(rows)) => cli_refs(db, rows, transcripts),
        _ => Seq::empty(),
    }
}

/// The references to all sessions: first the transcripts, then the summaries of
/// what there is no transcript of.
pub open spec fn listed(
    adapter: AdapterModel,
    entries: Seq<EntryModel>,
    rows: Option<Seq<AgRowModel>>,
) -> Seq<RefModel> {
    listed_transcripts(adapter, entries) + listed_summaries(
        adapter,
        rows,
        listed_transcripts(adapter, entries),
    )
}

/// The reference to the transcript at a path, where the last four parts of the
/// path are those that one has.
pub open spec fn path_ref(
    separator: char,
    path: Seq<char>,
    facts: Option<FileFacts>,
) -> Option<RefModel> {
    let lineage = paths::lineage_of(separator, path);
    if lineage.len() >= 4 && lineage[0] == Some("transcript.jsonl"@) && lineage[1] == Some("logs"@)
        && lineage[2] == Some(".system_generated"@) {
        match lineage[3] {
            Some(id) => transcript_ref(id, path, facts),
            None => None,
        }
    } else {
        None
    }
}

/// What the list of sessions shows of the references to summaries, by the paths
/// of the references. Of two references with one path the later counts.
pub open spec fn quick_metas<C: Conventions>(
    rules: &C,
    refs: Seq<RefModel>,
    rows: Seq<AgRowModel>,
) -> Map<Seq<char>, MetaModel>
    decreases refs.len(),
{
    if refs.len() == 0 {
        Map::empty()
    } else {
        let rest = quick_metas(rules, refs.drop_last(), rows);
        match last_row(rows, refs.last().native_id) {
            Some(i) => if is_virtual(refs.last()) {
                rest.insert(refs.last().file_path, cli_meta(rules, refs.last(), rows[i]))
            } else {
                rest
            },
            None => rest,
        }
    }
}

/// The paths that a session takes up: the directory of its conversation, three
/// parts above its transcript, where there is one, else the path of the reference.
pub open spec fn paths_of(separator: char, file_path: Seq<char>, is_dir: bool) -> Seq<Seq<char>> {
    match paths::third_parent(separator, file_path) {
        Some(dir) => if is_dir && "transcript.jsonl"@.is_suffix_of(file_path) {
            seq![dir]
        } else {
            seq![file_path]
        },
        None => seq![file_path],
    }
}

/// The result of reading a session, as contracts speak of it.
pub open spec fn result_model(
    r: Result<(SessionMeta, Vec<TranscriptMessage>, u32), AntigravityError>,
) -> Outcome {
    match r {
        Ok(parts) => Ok((parts.0.deep_view(), parts.1.deep_view(), parts.2 as int)),
        Err(error) => Err(error.deep_view()),
    }
}

/// Whether a reference is to a summary in the store, so that it is read from
/// there.
pub fn needs_store(r: &SessionFileRef) -> (b: bool)
    ensures
        b == is_virtual(r.deep_view()),
{
    has_char(r.file_path.as_str(), '#')
}

fn key_of(id: &str) -> (r: String)
    ensures
        r@ == session_key(id@),
{
    let mut key = "antigravity:".to_string();
    key.push_str(id);
    key
}

fn text_of_summary(preview: &str) -> (r: String)
    ensures
        r@ == summary_text(preview@),
{
    let mut said = trim_text(preview);
    if !said.as_str().is_empty() {
        said.push_str("\n\n");
    }
    said.push_str(
        "Antigravity stores conversation content encrypted — only this summary is available in Wake.",
    );
    assert(said@ =~= summary_text(preview@));
    said
}

fn find_first_row(rows: &Vec<AgRow>, id: &str) -> (r: Option<usize>)
    ensures
        match r {
            Some(i) => first_row(rows.deep_view(), id@) == Some(i as int) && i < rows@.len(),
            None => first_row(rows.deep_view(), id@) is None,
        },
{
    let ghost all = rows.deep_view();
    let mut found: Option<usize> = None;
    let mut i: usize = 0;
    while i < rows.len() && found.is_none()
        invariant
            i <= rows@.len(),
            all == rows.deep_view(),
            match found {
                Some(k) => first_row(all.take(i as int), id@) == Some(k as int) && k < i,
                None => first_row(all.take(i as int), id@) is None,
            },
        decreases rows@.len() - i,
    {
        assert(all.take(i + 1).drop_last() =~= all.take(i as int));
        assert(all.take(i + 1).last() == rows@[i as int].deep_view());
        if same_text(rows[i].id.as_str(), id) {
            found = Some(i);
        }
        i = i + 1;
    }
    proof {
        if found is Some {
            lemma_first_row_stays(all, id@, i as int);
        } else {
            assert(all.take(i as int) =~= all);
        }
    }
    found
}

/// The first summary found among the first ones is the first of all.
proof fn lemma_first_row_stays(rows: Seq<AgRowModel>, id: Seq<char>, n: int)
    requires
        0 <= n <= rows.len(),
        first_row(rows.take(n), id) is Some,
    ensures
        first_row(rows, id) == first_row(rows.take(n), id),
    decreases rows.len(),
{
    if n < rows.len() {
        assert(rows.drop_last().take(n) =~= rows.take(n));
        lemma_first_row_stays(rows.drop_last(), id, n);
    } else {
        assert(rows.take(n) =~= rows);
    }
}

fn find_last_row(rows: &Vec<AgRow>, id: &str) -> (r: Option<usize>)
    ensures
        match r {
            Some(i) => last_row(rows.deep_view(), id@) == Some(i as int) && i < rows@.len(),
            None => last_row(rows.deep_view(), id@) is None,
        },
{
    let ghost all = rows.deep_view();
    let mut i: usize = rows.len();
    assert(all.take(i as int) =~= all);
    while i > 0
        invariant
            i <= rows@.len(),
            all == rows.deep_view(),
            last_row(all, id@) == last_row(all.take(i as int), id@),
        decreases i,
    {
        let ghost head = all.take(i as int);
        assert(head.drop_last() =~= all.take(i - 1));
        assert(head.last() == rows@[i - 1].deep_view());
        i = i - 1;
        if same_text(rows[i].id.as_str(), id) {
            return Some(i);
        }
    }
    None
}

fn is_reserved_name(name: &str) -> (r: bool)
    ensures
        r == is_reserved(name@),
{
    let chars = chars_of(name);
    (chars.len() > 0 && chars[0] == '.') || same_text(name, "tempmediaStorage")
}

fn make_transcript_ref(id: &str, path: String, facts: Option<FileFacts>) -> (r: Option<
    SessionFileRef,
>)
    ensures
        r.deep_view() == transcript_ref(id@, path@, facts),
{
    match facts {
        Some(f) => {
            if !is_reserved_name(id) && f.is_file && f.len > 0 {
                Some(
                    SessionFileRef {
                        agent: AgentId::Antigravity,
                        native_id: id.to_string(),
                        file_path: path,
                        mtime_ms: f.mtime_ms,
                        size: f.len as i64,
                    },
                )
            } else {
                None
            }
        },
        None => None,
    }
}

fn make_summary_ref(db: &str, row: &AgRow) -> (r: SessionFileRef)
    ensures
        r.deep_view() == summary_ref(db@, row.deep_view()),
{
    let bytes: u128 = row.title.as_str().len() as u128 + row.preview.as_str().len() as u128;
    SessionFileRef {
        agent: AgentId::Antigravity,
        native_id: row.id.clone(),
        file_path: virtual_path(db, row.id.as_str()),
        mtime_ms: row.modified_ms,
        size: bytes as i64,
    }
}

fn is_listed(refs: &Vec<SessionFileRef>, count: usize, id: &str) -> (r: bool)
    requires
        count <= refs@.len(),
    ensures
        r == has_id(refs.deep_view().take(count as int), id@),
{
    let ghost all = refs.deep_view().take(count as int);
    let mut i: usize = 0;
    while i < count
        invariant
            i <= count <= refs@.len(),
            all == refs.deep_view().take(count as int),
            forall|j: int| #![trigger all[j]] 0 <= j < i ==> all[j].native_id != id@,
        decreases count - i,
    {
        if same_text(refs[i].native_id.as_str(), id) {
            assert(all[i as int].native_id == id@);
            return true;
        }
        assert(all[i as int].native_id != id@);
        i = i + 1;
    }
    false
}

fn lineage_is(lineage: &Vec<Option<String>>, i: usize, name: &str) -> (r: bool)
    requires
        i < lineage@.len(),
    ensures
        r == (lineage.deep_view()[i as int] == Some(name@)),
{
    match &lineage[i] {
        Some(s) => same_text(s.as_str(), name),
        None => false,
    }
}

impl AntigravityAdapter {
    /// What the list of sessions shows of a conversation that there is only a
    /// summary of.
    pub fn build_cli_meta<C: Conventions>(
        &self,
        rules: &C,
        r: &SessionFileRef,
        row: &AgRow,
    ) -> (meta: SessionMeta)
        ensures
            meta.deep_view() == cli_meta(rules, r.deep_view(), row.deep_view()),
    {
        let mut title = rules.clean_title_candidate(row.title.as_str());
        if title.as_str().is_empty() {
            title = rules.clean_title_candidate(row.preview.as_str());
            if title.as_str().is_empty() {
                title = rules.untitled();
            }
        }
        let ts: i64 = if row.modified_ms > 0 {
            row.modified_ms
        } else {
            r.mtime_ms
        };
        let meta = SessionMeta {
            key: key_of(row.id.as_str()),
            host: String::new(),
            id: row.id.clone(),
            agent: AgentId::Antigravity,
            title,
            project_path: row.cwd.clone(),
            project_name: rules.project_name_of(row.cwd.as_str()),
            file_path: r.file_path.clone(),
            created_at: ts,
            updated_at: ts,
            message_count: row.step_count,
            size_bytes: r.size,
            git_branch: None,
            model: None,
            tokens_used: None,
            archived: false,
            source: None,
            favorite: false,
            pinned: false,
        };
        assert(meta.deep_view() =~= cli_meta(rules, r.deep_view(), row.deep_view()));
        meta
    }

    /// Reads a conversation that there is only a summary of.
    pub fn parse_cli<C: Conventions>(
        &self,
        rules: &C,
        r: &SessionFileRef,
        rows: &Option<Vec<AgRow>>,
    ) -> (result: Result<(SessionMeta, Vec<TranscriptMessage>), AntigravityError>)
        ensures
            (match result {
                Ok(parts) => Ok((parts.0.deep_view(), parts.1.deep_view(), 0int)),
                Err(error) => Err(error.deep_view()),
            }) == summary_outcome(rules, r.deep_view(), rows.deep_view()),
    {
        match rows {
            None => Err(AntigravityError::StoreUnavailable),
            Some(rows) => match find_first_row(rows, r.native_id.as_str()) {
                None => Err(AntigravityError::NotInStore(r.native_id.clone())),
                Some(i) => {
                    let row = &rows[i];
                    let said = text_of_summary(row.preview.as_str());
                    let note = rules.text_msg(Role::System, said.as_str(), row.modified_ms);
                    let mut messages: Vec<TranscriptMessage> = Vec::new();
                    messages.push(note);
                    assert(messages.deep_view() =~= seq![note.deep_view()]);
                    assign_seq(&mut messages);
                    Ok((self.build_cli_meta(rules, r, row), messages))
                },
            },
        }
    }

    /// What the list of sessions shows of a conversation that there is a
    /// transcript of, where `is_file` says whether there is a file at the path that
    /// the transcript tells the project by.
    pub fn build_ide_meta<C: Conventions>(
        &self,
        rules: &C,
        r: &SessionFileRef,
        parsed: &AntigravityIdeParse,
        is_file: bool,
    ) -> (meta: SessionMeta)
        ensures
            meta.deep_view() == ide_meta(
                self.deep_view(),
                rules,
                r.deep_view(),
                parsed.deep_view(),
                is_file,
            ),
    {
        let mut title = String::new();
        match &parsed.title {
            Some(t) => {
                if !t.as_str().is_empty() {
                    title = rules.clean_title_candidate(t.as_str());
                }
            },
            None => {},
        }
        if title.as_str().is_empty() {
            title = rules.untitled();
        }
        let mut project_path = match &parsed.project_path {
            Some(path) => path.clone(),
            None => String::new(),
        };
        let separator = self.separator();
        if !project_path.as_str().is_empty() && (is_file || path_has_extension(
            separator,
            project_path.as_str(),
        )) {
            match path_parent(separator, project_path.as_str()) {
                Some(above) => {
                    project_path = above;
                },
                None => {},
            }
        }
        assert(project_path@ == told_dir(separator, parsed.deep_view().project_path, is_file));
        match self.lookup_project_path(project_path.as_str()) {
            Some(mapped) => {
                project_path = mapped;
            },
            None => {},
        }
        let created_at: i64 = if parsed.created_at > 0 {
            parsed.created_at
        } else {
            r.mtime_ms
        };
        let updated_at: i64 = if parsed.updated_at > 0 {
            parsed.updated_at
        } else {
            r.mtime_ms
        };
        let meta = SessionMeta {
            key: key_of(r.native_id.as_str()),
            host: String::new(),
            id: r.native_id.clone(),
            agent: AgentId::Antigravity,
            title,
            project_name: rules.project_name_of(project_path.as_str()),
            project_path,
            file_path: r.file_path.clone(),
            created_at,
            updated_at,
            message_count: parsed.messages.len() as i64,
            size_bytes: r.size,
            git_branch: None,
            model: parsed.model.clone(),
            tokens_used: None,
            archived: false,
            source: None,
            favorite: false,
            pinned: false,
        };
        assert(meta.deep_view() =~= ide_meta(
            self.deep_view(),
            rules,
            r.deep_view(),
            parsed.deep_view(),
            is_file,
        ));
        meta
    }

    /// Reads a session. Images are kept out either way.
    pub fn parse<C: Conventions>(
        &self,
        rules: &C,
        r: &SessionFileRef,
        source: SessionSource,
        _decode_images: bool,
    ) -> (result: Result<(SessionMeta, Vec<TranscriptMessage>, u32), AntigravityError>)
        ensures
            result_model(result) == outcome_of(self.deep_view(), rules, r.deep_view(), source),
    {
        if needs_store(r) {
            match self.parse_cli(rules, r, &source.rows) {
                Ok(parts) => Ok((parts.0, parts.1, 0)),
                Err(error) => Err(error),
            }
        } else {
            match source.transcript {
                Err(why) => Err(AntigravityError::TranscriptUnreadable(why)),
                Ok(t) => {
                    let meta = self.build_ide_meta(rules, r, &t.parsed, t.project_is_file);
                    Ok((meta, t.parsed.messages, t.parsed.unknown_lines))
                },
            }
        }
    }

    /// Reads a session for the search index.
    pub fn parse_session<C: Conventions>(
        &self,
        rules: &C,
        r: &SessionFileRef,
        source: SessionSource,
    ) -> (result: Result<ParsedSession<C::Unit>, AntigravityError>)
        ensures
            match outcome_of(self.deep_view(), rules, r.deep_view(), source) {
                Ok(parts) => {
                    &&& result matches Ok(session)
                    &&& session.meta.deep_view() == parts.0
                    &&& session.units.deep_view() == rules.units_of(parts.1)
                    &&& session.unknown_line_count == parts.2
                },
                Err(error) => result matches Err(e) && e.deep_view() == error,
            },
    {
        match self.parse(rules, r, source, false) {
            Ok(parts) => {
                let units = rules.units_from_messages(&parts.1);
                Ok(ParsedSession { meta: parts.0, units, unknown_line_count: parts.2 })
            },
            Err(error) => Err(error),
        }
    }

    /// Reads a session for the reader of its transcript.
    pub fn parse_transcript<C: Conventions>(
        &self,
        rules: &C,
        r: &SessionFileRef,
        source: SessionSource,
    ) -> (result: Result<ParsedTranscript, AntigravityError>)
        ensures
            match outcome_of(self.deep_view(), rules, r.deep_view(), source) {
                Ok(parts) => {
                    &&& result matches Ok(transcript)
                    &&& transcript.meta.deep_view() == parts.0
                    &&& transcript.mainline.deep_view() == parts.1
                    &&& transcript.sidechains@.len() == 0
                    &&& transcript.unknown_line_count == parts.2
                },
                Err(error) => result matches Err(e) && e.deep_view() == error,
            },
    {
        match self.parse(rules, r, source, true) {
            Ok(parts) => Ok(
                ParsedTranscript {
                    meta: parts.0,
                    mainline: parts.1,
                    sidechains: Vec::new(),
                    unknown_line_count: parts.2,
                },
            ),
            Err(error) => Err(error),
        }
    }

    /// The references to all sessions: first the transcripts in the directory of
    /// conversations, then the summaries of what there is no transcript of.
    pub fn list_session_files(
        &self,
        entries: &Vec<BrainEntry>,
        rows: &Option<Vec<AgRow>>,
    ) -> (r: Vec<SessionFileRef>)
        ensures
            r.deep_view() == listed(self.deep_view(), entries.deep_view(), rows.deep_view()),
    {
        let mut refs: Vec<SessionFileRef> = Vec::new();
        let ghost adapter = self.deep_view();
        if self.brain_root().is_some() {
            self.list_transcripts(entries, &mut refs);
        }
        let ghost transcripts = listed_transcripts(adapter, entries.deep_view());
        assert(refs.deep_view() =~= transcripts);
        match (self.cli_db(), rows) {
            (Some(db), Some(rows)) => {
                list_summaries(db.as_str(), rows, &mut refs);
            },
            _ => {},
        }
        assert(refs.deep_view() =~= listed(
            adapter,
            entries.deep_view(),
            rows.deep_view(),
        ));
        refs
    }

    fn list_transcripts(&self, entries: &Vec<BrainEntry>, refs: &mut Vec<SessionFileRef>)
        requires
            old(refs)@.len() == 0,
        ensures
            final(refs).deep_view() == ide_refs(self.deep_view().separator, entries.deep_view()),
    {
        let ghost all = entries.deep_view();
        let ghost sep = self.deep_view().separator;
        assert(refs.deep_view() =~= ide_refs(sep, all.take(0)));
        let mut i: usize = 0;
        while i < entries.len()
            invariant
                i <= entries@.len(),
                all == entries.deep_view(),
                sep == self.deep_view().separator,
                refs.deep_view() == ide_refs(sep, all.take(i as int)),
            decreases entries@.len() - i,
        {
            let ghost before = refs.deep_view();
            assert(all.take(i + 1).drop_last() =~= all.take(i as int));
            assert(all.take(i + 1).last() == entries@[i as int].deep_view());
            let entry = &entries[i];
            if entry.is_dir {
                let path = transcript_path(self.separator(), entry.path.as_str());
                match make_transcript_ref(entry.name.as_str(), path, entry.transcript) {
                    Some(r) => {
                        refs.push(r);
                        assert(refs.deep_view() =~= before.push(r.deep_view()));
                    },
                    None => {},
                }
            }
            i = i + 1;
        }
        assert(all.take(i as int) =~= all);
    }

    /// The reference to the transcript at a path, where the last four parts of the
    /// path are those that one has; `facts` says what there is at the path.
    pub fn file_ref(&self, path: &str, facts: Option<FileFacts>) -> (r: Option<SessionFileRef>)
        ensures
            r.deep_view() == path_ref(self.deep_view().separator, path@, facts),
    {
        let lineage = path_lineage(self.separator(), path);
        if lineage.len() < 4 || !lineage_is(&lineage, 0, "transcript.jsonl") || !lineage_is(
            &lineage,
            1,
            "logs",
        ) || !lineage_is(&lineage, 2, ".system_generated") {
            return None;
        }
        match &lineage[3] {
            Some(id) => make_transcript_ref(id.as_str(), path.to_string(), facts),
            None => None,
        }
    }

    /// What the list of sessions shows of the references to summaries, by the
    /// paths of the references, no path twice; `None` where the summaries could
    /// not be had. Of two references with one path the later counts.
    pub fn quick_meta<C: Conventions>(
        &self,
        rules: &C,
        refs: &Vec<SessionFileRef>,
        rows: &Option<Vec<AgRow>>,
    ) -> (r: Option<Vec<(String, SessionMeta)>>)
        ensures
            match rows.deep_view() {
                Some(rows) => {
                    &&& r matches Some(list)
                    &&& pairs::pairs_map(list.deep_view()) == quick_metas(
                        rules,
                        refs.deep_view(),
                        rows,
                    )
                    &&& pairs::distinct_keys(list.deep_view())
                },
                None => r is None,
            },
    {
        match rows {
            None => None,
            Some(rows) => {
                let ghost all = refs.deep_view();
                let ghost list = rows.deep_view();
                let mut out: Vec<(String, SessionMeta)> = Vec::new();
                assert(pairs::pairs_map(out.deep_view()) == quick_metas(rules, all.take(0), list));
                let mut i: usize = 0;
                while i < refs.len()
                    invariant
                        i <= refs@.len(),
                        all == refs.deep_view(),
                        list == rows.deep_view(),
                        pairs::pairs_map(out.deep_view()) == quick_metas(
                            rules,
                            all.take(i as int),
                            list,
                        ),
                        pairs::distinct_keys(out.deep_view()),
                    decreases refs@.len() - i,
                {
                    assert(all.take(i + 1).drop_last() =~= all.take(i as int));
                    assert(all.take(i + 1).last() == refs@[i as int].deep_view());
                    let r = &refs[i];
                    if needs_store(r) {
                        match find_last_row(rows, r.native_id.as_str()) {
                            Some(k) => {
                                let meta = self.build_cli_meta(rules, r, &rows[k]);
                                put(&mut out, r.file_path.clone(), meta);
                            },
                            None => {},
                        }
                    }
                    i = i + 1;
                }
                assert(all.take(i as int) =~= all);
                Some(out)
            },
        }
    }

    /// The directory of the conversation that a session belongs to, if its path is
    /// that of a transcript: three parts above it.
    pub fn session_dir(&self, meta: &SessionMeta) -> (r: Option<String>)
        ensures
            r.deep_view() == paths::third_parent(self.deep_view().separator, meta.file_path@),
    {
        path_third_parent(self.separator(), meta.file_path.as_str())
    }

    /// The paths that a session takes up, where `is_dir` says whether the directory
    /// of its conversation is there.
    pub fn session_paths(&self, meta: &SessionMeta, is_dir: bool) -> (r: Vec<String>)
        ensures
            r.deep_view() == paths_of(self.deep_view().separator, meta.file_path@, is_dir),
    {
        let chars = chars_of(meta.file_path.as_str());
        let name = chars_of("transcript.jsonl");
        let mut found: Vec<String> = Vec::new();
        match self.session_dir(meta) {
            Some(dir) => {
                if is_dir && ends_with(chars.as_slice(), name.as_slice()) {
                    found.push(dir);
                } else {
                    found.push(meta.file_path.clone());
                }
            },
            None => {
                found.push(meta.file_path.clone());
            },
        }
        assert(found.deep_view() =~= paths_of(
            self.deep_view().separator,
            meta.file_path@,
            is_dir,
        ));
        found
    }
}

/// Adds the references to the summaries of what the list does not hold yet.
fn list_summaries(db: &str, rows: &Vec<AgRow>, refs: &mut Vec<SessionFileRef>)
    ensures
        final(refs).deep_view() == old(refs).deep_view() + cli_refs(
            db@,
            rows.deep_view(),
            old(refs).deep_view(),
        ),
{
    let ghost transcripts = refs.deep_view();
    let ghost all = rows.deep_view();
    let count: usize = refs.len();
    assert(refs.deep_view() =~= transcripts + cli_refs(db@, all.take(0), transcripts));
    let mut i: usize = 0;
    while i < rows.len()
        invariant
            i <= rows@.len(),
            all == rows.deep_view(),
            count == transcripts.len(),
            count <= refs@.len(),
            transcripts == old(refs).deep_view(),
            refs.deep_view() == transcripts + cli_refs(db@, all.take(i as int), transcripts),
        decreases rows@.len() - i,
    {
        let ghost before = refs.deep_view();
        assert(before.take(count as int) =~= transcripts);
        assert(all.take(i + 1).drop_last() =~= all.take(i as int));
        assert(all.take(i + 1).last() == rows@[i as int].deep_view());
        if !is_listed(refs, count, rows[i].id.as_str()) {
            let r = make_summary_ref(db, &rows[i]);
            refs.push(r);
            assert(refs.deep_view() =~= before.push(r.deep_view()));
            assert(refs.deep_view() =~= transcripts + cli_refs(
                db@,
                all.take(i + 1),
                transcripts,
            ));
        }
        i = i + 1;
    }
    assert(all.take(i as int) =~= all);
}

} // verus!
