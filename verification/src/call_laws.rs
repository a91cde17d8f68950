//! How the results of the functions that callers use belong together.

use crate::adapter::AntigravityAdapter;
use crate::conventions::Conventions;
use crate::models::{
    ParsedSession, ParsedTranscript, SessionFileRef, SessionMeta, TranscriptMessage,
};
use crate::paths;
use crate::request;
use crate::sessions;
use crate::sessions::{AntigravityError, BrainEntry, FileFacts, SessionSource};
use crate::store;
use crate::store::{AgRow, SummaryColumns};
use crate::tool_args;
use crate::tool_args::ToolArgs;
use crate::transcript;
use crate::transcript::AntigravityIdeParse;
use crate::workspace;
use vstd::prelude::*;

verus! {

/// A session is read in the same way for the index, for the reader and for both: all
/// three show the same of it, count the same unknown lines and fail alike. Whether
/// images are asked for makes no difference. The reader gets the messages, the index
/// gets what is made of them, and there are no side conversations.
pub proof fn law_a_session_is_read_in_one_way<C: Conventions>(
    adapter: AntigravityAdapter,
    rules: &C,
    r: SessionFileRef,
    source: SessionSource,
    images: bool,
    both: Result<(SessionMeta, Vec<TranscriptMessage>, u32), AntigravityError>,
    indexed: Result<ParsedSession<C::Unit>, AntigravityError>,
    shown: Result<ParsedTranscript, AntigravityError>,
)
    requires
        call_ensures(AntigravityAdapter::parse::<C>, (&adapter, rules, &r, source, images), both),
        call_ensures(AntigravityAdapter::parse_session::<C>, (&adapter, rules, &r, source), indexed),
        call_ensures(
            AntigravityAdapter::parse_transcript::<C>,
            (&adapter, rules, &r, source),
            shown,
        ),
    ensures
        sessions::result_model(both) == sessions::outcome_of(
            adapter.deep_view(),
            rules,
            r.deep_view(),
            source,
        ),
        match both {
            Ok(parts) => {
                &&& shown matches Ok(t)
                &&& t.meta.deep_view() == parts.0.deep_view()
                &&& t.mainline.deep_view() == parts.1.deep_view()
                &&& t.sidechains@.len() == 0
                &&& t.unknown_line_count == parts.2
                &&& indexed matches Ok(s)
                &&& s.meta.deep_view() == parts.0.deep_view()
                &&& s.units.deep_view() == rules.units_of(parts.1.deep_view())
                &&& s.unknown_line_count == parts.2
            },
            Err(error) => {
                &&& shown matches Err(a) && a.deep_view() == error.deep_view()
                &&& indexed matches Err(b) && b.deep_view() == error.deep_view()
            },
        },
{
}

/// The transcript that is read from lines is what those lines say, and reading is
/// refused only where more lines say nothing known than can be counted: never where
/// there are fewer lines than that.
pub proof fn law_lines_are_read_in_one_way<C: Conventions>(
    rules: &C,
    lines: Vec<Option<String>>,
    read: AntigravityIdeParse,
    tried: Option<AntigravityIdeParse>,
    unknown: usize,
)
    requires
        call_ensures(transcript::parse_antigravity_jsonl::<C>, (rules, &lines), read),
        call_ensures(transcript::try_parse_antigravity_jsonl::<C>, (rules, &lines), tried),
        call_ensures(transcript::count_unknown_lines, (&lines,), unknown),
    ensures
        read.deep_view() == transcript::transcript_of(rules, lines.deep_view()),
        tried is Some <==> unknown <= u32::MAX,
        lines@.len() <= u32::MAX ==> tried is Some,
        tried matches Some(t) ==> t.deep_view() == read.deep_view() && t.unknown_lines == unknown,
{
    transcript::lemma_unknown_lines(rules, lines.deep_view());
}

/// What an adapter lists and finds, and what a session takes up, are told by its
/// roots and by what there is on disk.
pub proof fn law_sessions_are_listed_and_found(
    adapter: AntigravityAdapter,
    entries: Vec<BrainEntry>,
    rows: Option<Vec<AgRow>>,
    all: Vec<SessionFileRef>,
    path: &str,
    facts: Option<FileFacts>,
    found: Option<SessionFileRef>,
    roots: Vec<String>,
)
    requires
        call_ensures(AntigravityAdapter::list_session_files, (&adapter, &entries, &rows), all),
        call_ensures(AntigravityAdapter::file_ref, (&adapter, path, facts), found),
        call_ensures(AntigravityAdapter::data_roots, (&adapter,), roots),
    ensures
        all.deep_view() == sessions::listed(
            adapter.deep_view(),
            entries.deep_view(),
            rows.deep_view(),
        ),
        found.deep_view() == sessions::path_ref(adapter.deep_view().separator, path@, facts),
        roots@.len() == (if adapter.deep_view().brain_root is Some {
            1int
        } else {
            0
        }) + (if adapter.deep_view().cli_db is Some {
            1int
        } else {
            0
        }),
        adapter.deep_view().brain_root is Some ==> Some(roots.deep_view()[0])
            == adapter.deep_view().brain_root,
        adapter.deep_view().cli_db is Some ==> Some(roots.deep_view().last())
            == adapter.deep_view().cli_db,
{
    assert(roots.deep_view().len() == roots@.len());
}

/// The directory of a session is the parent of the parent of the parent of its path.
/// A session takes up that directory where it is there and the path is that of a
/// transcript, and otherwise its path: one place always.
pub proof fn law_the_place_of_a_session(
    adapter: AntigravityAdapter,
    meta: SessionMeta,
    is_dir: bool,
    dir: Option<String>,
    places: Vec<String>,
)
    requires
        call_ensures(AntigravityAdapter::session_dir, (&adapter, &meta), dir),
        call_ensures(AntigravityAdapter::session_paths, (&adapter, &meta, is_dir), places),
    ensures
        ({
            let separator = adapter.deep_view().separator;
            let path = meta.file_path@;
            let tail = "transcript.jsonl"@;
            let named = path.len() >= tail.len() && path.skip(path.len() - tail.len()) == tail;
            &&& places@.len() == 1
            &&& dir is Some && is_dir && named ==> places@[0]@ == dir->0@
            &&& !(dir is Some && is_dir && named) ==> places@[0]@ == path
            &&& dir matches Some(d) ==> exists|a: Seq<char>, b: Seq<char>|
                #![trigger paths::parent(separator, a), paths::parent(separator, b)]
                paths::parent(separator, path) == Some(a) && paths::parent(separator, a) == Some(b)
                    && paths::parent(separator, b) == Some(d@)
        }),
{
    let separator = adapter.deep_view().separator;
    let path = meta.file_path@;
    let tail = "transcript.jsonl"@;
    if path.len() >= tail.len() {
        assert(path.skip(path.len() - tail.len()) =~= path.subrange(
            path.len() - tail.len(),
            path.len() as int,
        ));
    }
    assert(places.deep_view().len() == places@.len());
    assert(places.deep_view()[0] == places@[0]@);
    if dir is Some {
        let a = paths::parent(separator, path)->0;
        let b = paths::parent(separator, a)->0;
        assert(paths::parent(separator, b) == Some(dir->0@));
    }
}

/// A summary is read exactly where the first of its workspaces can be resolved, and
/// its directory is then that workspace. A summary without a list of workspaces is
/// always read.
pub proof fn law_which_summaries_are_read<C: Conventions>(
    rules: &C,
    columns: SummaryColumns,
    row: Option<AgRow>,
    uris: &str,
    dir: Option<String>,
)
    requires
        call_ensures(store::read_summary::<C>, (rules, columns), row),
        call_ensures(workspace::try_first_workspace, (uris,), dir),
        columns.workspace_uris matches Some(list) ==> list@ == uris@,
        columns.workspace_uris is None ==> uris@.len() == 0,
    ensures
        row is Some <==> dir is Some,
        row matches Some(r) ==> r.cwd@ == dir->0@ && r.deep_view() == store::summary_of(
            rules,
            columns,
        ),
{
    if columns.workspace_uris is None {
        assert(uris@ =~= Seq::empty());
    }
}

/// The parts of a message of the user, and those of a call's arguments, are what the
/// texts say; the name of the tool makes no difference.
pub proof fn law_messages_and_arguments_are_taken_apart<C: Conventions>(
    rules: &C,
    raw: &str,
    parts: (String, Option<String>, Option<String>),
    one: &str,
    other: &str,
    args: ToolArgs,
    of_one: (String, Option<String>, Option<String>),
    of_other: (String, Option<String>, Option<String>),
)
    requires
        call_ensures(request::extract_user_request, (raw,), parts),
        call_ensures(tool_args::parse_tool_args::<C>, (rules, one, Some(&args)), of_one),
        call_ensures(tool_args::parse_tool_args::<C>, (rules, other, Some(&args)), of_other),
    ensures
        parts.0@ == request::request_text(raw@),
        parts.1.deep_view() == request::document_path(raw@),
        parts.2.deep_view() == request::chosen_model(raw@),
        of_one.0@ == of_other.0@,
        of_one.1.deep_view() == of_other.1.deep_view(),
        of_one.2.deep_view() == of_other.2.deep_view(),
        of_one.0@ == tool_args::args_parts(rules, Some(args.deep_view())).0,
        of_one.1.deep_view() == tool_args::args_parts(rules, Some(args.deep_view())).1,
        of_one.2.deep_view() == tool_args::args_parts(rules, Some(args.deep_view())).2,
{
}

} // verus!
