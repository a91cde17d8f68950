//! Which sessions are listed, where they lie, and what the list shows of each, told
//! from the directories, files and summaries that there are.

use crate::adapter;
use crate::adapter::{AdapterModel, AntigravityAdapter, RootProbes};
use crate::conventions::Conventions;
use crate::json::Json;
use crate::layout;
use crate::models::{
    AgentId, MessageModel, MetaModel, RefModel, Role, SessionFileRef, SessionMeta, ToolCallView,
    TranscriptMessage,
};
use crate::paths;
use crate::projects;
use crate::sessions;
use crate::sessions::{EntryModel, ErrorModel, FileFacts};
use crate::store;
use crate::store::{AgRow, AgRowModel};
use crate::text;
use crate::transcript::IdeParseModel;
use crate::workspace;
use vstd::prelude::*;

verus! {

/// Whether an entry of the directory of conversations has a transcript to list: it is
/// a directory, its name is one that a conversation can have, and there is a file
/// that is not empty, however long it is.
pub open spec fn has_transcript(entry: EntryModel) -> bool {
    &&& entry.is_dir
    &&& !(entry.name.len() > 0 && entry.name[0] == '.')
    &&& entry.name != "tempmediaStorage"@
    &&& entry.transcript matches Some(f) && f.is_file && f.len > 0
}

/// The reference to the transcript of an entry that has one.
pub open spec fn transcript_listed(separator: char, entry: EntryModel) -> RefModel {
    RefModel {
        agent: AgentId::Antigravity,
        native_id: entry.name,
        file_path: layout::transcript_file(separator, entry.path),
        mtime_ms: entry.transcript->0.mtime_ms,
        size: entry.transcript->0.len as i64,
    }
}

/// The reference to a summary.
pub open spec fn summary_listed(db: Seq<char>, row: AgRowModel) -> RefModel {
    RefModel {
        agent: AgentId::Antigravity,
        native_id: row.id,
        file_path: db + "#"@ + row.id,
        mtime_ms: row.modified_ms,
        size: (vstd::utf8::encode_utf8(row.title).len() as usize + vstd::utf8::encode_utf8(
            row.preview,
        ).len() as usize) as i64,
    }
}

/// Where one of two lists is listed before the other, so are their transcripts: each
/// entry counts for itself.
proof fn lemma_transcripts_of_two(separator: char, a: Seq<EntryModel>, b: Seq<EntryModel>)
    ensures
        sessions::ide_refs(separator, a + b) == sessions::ide_refs(separator, a)
            + sessions::ide_refs(separator, b),
    decreases b.len(),
{
    let all = a + b;
    if b.len() == 0 {
        assert(all =~= a);
        assert(sessions::ide_refs(separator, b) =~= Seq::empty());
        assert(sessions::ide_refs(separator, a) + sessions::ide_refs(separator, b)
            =~= sessions::ide_refs(separator, a));
    } else {
        assert(all.drop_last() =~= a + b.drop_last());
        assert(all.last() == b.last());
        lemma_transcripts_of_two(separator, a, b.drop_last());
        assert(sessions::ide_refs(separator, all) =~= sessions::ide_refs(separator, a)
            + sessions::ide_refs(separator, b));
    }
}

/// Entries are listed one by one, in their order: one that has a transcript is one
/// reference, to that transcript, and any other is none.
pub proof fn law_entries_are_listed_one_by_one(
    adapter: AdapterModel,
    a: Seq<EntryModel>,
    b: Seq<EntryModel>,
    entry: EntryModel,
)
    requires
        adapter.brain_root is Some,
    ensures
        sessions::listed_transcripts(adapter, a + b) == sessions::listed_transcripts(adapter, a)
            + sessions::listed_transcripts(adapter, b),
        has_transcript(entry) ==> sessions::listed_transcripts(adapter, seq![entry]) == seq![
            transcript_listed(adapter.separator, entry),
        ],
        !has_transcript(entry) ==> sessions::listed_transcripts(adapter, seq![entry]).len() == 0,
{
    lemma_transcripts_of_two(adapter.separator, a, b);
    let one = seq![entry];
    assert(one.drop_last() =~= Seq::empty());
    assert(one.last() == entry);
    reveal_with_fuel(sessions::ide_refs, 2);
    if has_transcript(entry) {
        assert(sessions::ide_refs(adapter.separator, one) =~= seq![
            transcript_listed(adapter.separator, entry),
        ]);
    }
}

/// Every entry that has a transcript, of whatever length, is listed, with its name,
/// the path of its transcript, its time and its size. Without a directory of
/// conversations there are none.
pub proof fn law_every_transcript_is_listed(
    adapter: AdapterModel,
    entries: Seq<EntryModel>,
    rows: Option<Seq<AgRowModel>>,
)
    ensures
        adapter.brain_root is Some ==> forall|i: int|
            #![trigger entries[i]]
            0 <= i < entries.len() && has_transcript(entries[i]) ==> sessions::listed(
                adapter,
                entries,
                rows,
            ).contains(transcript_listed(adapter.separator, entries[i])),
        adapter.brain_root is None ==> sessions::listed_transcripts(adapter, entries).len() == 0,
{
    let listed = sessions::listed_transcripts(adapter, entries);
    let all = sessions::listed(adapter, entries, rows);
    if adapter.brain_root is Some {
        assert forall|i: int|
            #![trigger entries[i]]
            0 <= i < entries.len() && has_transcript(entries[i]) implies all.contains(
            transcript_listed(adapter.separator, entries[i]),
        ) by {
            let before = entries.take(i);
            let rest = entries.skip(i);
            let behind = entries.skip(i + 1);
            let one = seq![entries[i]];
            assert(entries =~= before + rest);
            assert(rest =~= one + behind);
            law_entries_are_listed_one_by_one(adapter, before, rest, entries[i]);
            law_entries_are_listed_one_by_one(adapter, one, behind, entries[i]);
            let n = sessions::listed_transcripts(adapter, before).len() as int;
            assert(listed[n] == transcript_listed(adapter.separator, entries[i]));
            assert(all[n] == listed[n]);
        }
    }
}

/// Each transcript that is listed is that of an entry that has one.
pub proof fn law_each_listed_transcript_has_an_entry(
    adapter: AdapterModel,
    entries: Seq<EntryModel>,
    k: int,
)
    requires
        0 <= k < sessions::listed_transcripts(adapter, entries).len(),
    ensures
        exists|i: int|
            #![trigger entries[i]]
            0 <= i < entries.len() && has_transcript(entries[i])
                && sessions::listed_transcripts(adapter, entries)[k] == transcript_listed(
                adapter.separator,
                entries[i],
            ),
{
    let listed = sessions::listed_transcripts(adapter, entries);
    crate::laws::lemma_ide_refs(adapter.separator, entries);
    let i = choose|i: int|
        #![trigger entries[i]]
        0 <= i < entries.len() && sessions::entry_ref(adapter.separator, entries[i]) == Some(
            listed[k],
        );
    assert(has_transcript(entries[i]));
}

proof fn lemma_summaries_of_two(
    db: Seq<char>,
    a: Seq<AgRowModel>,
    b: Seq<AgRowModel>,
    transcripts: Seq<RefModel>,
)
    ensures
        sessions::cli_refs(db, a + b, transcripts) == sessions::cli_refs(db, a, transcripts)
            + sessions::cli_refs(db, b, transcripts),
    decreases b.len(),
{
    let all = a + b;
    if b.len() == 0 {
        assert(all =~= a);
        assert(sessions::cli_refs(db, b, transcripts) =~= Seq::empty());
        assert(sessions::cli_refs(db, a, transcripts) + sessions::cli_refs(db, b, transcripts)
            =~= sessions::cli_refs(db, a, transcripts));
    } else {
        assert(all.drop_last() =~= a + b.drop_last());
        assert(all.last() == b.last());
        lemma_summaries_of_two(db, a, b.drop_last(), transcripts);
        assert(sessions::cli_refs(db, all, transcripts) =~= sessions::cli_refs(db, a, transcripts)
            + sessions::cli_refs(db, b, transcripts));
    }
}

/// Whether one of the references is to the conversation with this identifier.
pub open spec fn is_among(refs: Seq<RefModel>, id: Seq<char>) -> bool {
    exists|i: int| #![trigger refs[i]] 0 <= i < refs.len() && refs[i].native_id == id
}

/// Summaries are listed behind the transcripts, one by one and in their order: one of
/// a conversation that no listed transcript is of is one reference, any other is
/// none. Without a database, or where it could not be read, there are none.
pub proof fn law_summaries_are_listed_one_by_one(
    adapter: AdapterModel,
    entries: Seq<EntryModel>,
    a: Seq<AgRowModel>,
    b: Seq<AgRowModel>,
    row: AgRowModel,
)
    ensures
        ({
            let transcripts = sessions::listed_transcripts(adapter, entries);
            let first = sessions::listed_summaries(adapter, Some(a), transcripts);
            let second = sessions::listed_summaries(adapter, Some(b), transcripts);
            let one = sessions::listed_summaries(adapter, Some(seq![row]), transcripts);
            &&& sessions::listed(adapter, entries, Some(a + b)) == transcripts + first + second
            &&& sessions::listed(adapter, entries, None) == transcripts
            &&& adapter.cli_db is None ==> sessions::listed(adapter, entries, Some(a))
                == transcripts
            &&& adapter.cli_db matches Some(db) ==> {
                &&& !is_among(transcripts, row.id) ==> one == seq![summary_listed(db, row)]
                &&& is_among(transcripts, row.id) ==> one.len() == 0
                &&& sessions::listed_summaries(
                    adapter,
                    Some(Seq::<AgRowModel>::empty()),
                    transcripts,
                ).len() == 0
            }
        }),
{
    let transcripts = sessions::listed_transcripts(adapter, entries);
    let none = Seq::<RefModel>::empty();
    assert(transcripts + none =~= transcripts);
    assert(sessions::listed(adapter, entries, None) =~= transcripts);
    match adapter.cli_db {
        Some(db) => {
            lemma_summaries_of_two(db, a, b, transcripts);
            let one = seq![row];
            assert(one.drop_last() =~= Seq::empty());
            assert(one.last() == row);
            reveal_with_fuel(sessions::cli_refs, 2);
            assert(sessions::has_id(transcripts, row.id) == is_among(transcripts, row.id));
            if !is_among(transcripts, row.id) {
                assert(sessions::cli_refs(db, one, transcripts) =~= seq![summary_listed(db, row)]);
            }
            assert(sessions::listed(adapter, entries, Some(a + b)) =~= transcripts
                + sessions::listed_summaries(adapter, Some(a), transcripts)
                + sessions::listed_summaries(adapter, Some(b), transcripts));
        },
        None => {
            assert(transcripts + none + none =~= transcripts);
        },
    }
}

/// A transcript is found by its path exactly where the last parts of the path are
/// those that one has, its conversation can have its name and there is a file that is
/// not empty; what is found is told by the path and the file.
pub proof fn law_a_path_finds_a_transcript(
    separator: char,
    path: Seq<char>,
    facts: Option<FileFacts>,
)
    ensures
        ({
            let lineage = paths::lineage_of(separator, path);
            let found = sessions::path_ref(separator, path, facts);
            &&& found is Some <==> {
                &&& lineage.len() >= 4
                &&& lineage[0] == Some("transcript.jsonl"@)
                &&& lineage[1] == Some("logs"@)
                &&& lineage[2] == Some(".system_generated"@)
                &&& lineage[3] matches Some(id) && !(id.len() > 0 && id[0] == '.') && id
                    != "tempmediaStorage"@
                &&& facts matches Some(f) && f.is_file && f.len > 0
            }
            &&& found matches Some(r) ==> r == (RefModel {
                agent: AgentId::Antigravity,
                native_id: lineage[3]->0,
                file_path: path,
                mtime_ms: facts->0.mtime_ms,
                size: facts->0.len as i64,
            })
        }),
{
}

/// How a name is joined to a path that is not verbatim.
pub proof fn law_a_name_is_joined_to_a_path(separator: char, base: Seq<char>, name: Seq<char>)
    requires
        !(separator == '\\' && base.len() >= 4 && base[0] == '\\' && base[1] == '\\' && base[2]
            == '?'),
    ensures
        base.len() == 0 ==> layout::joined_path(separator, base, name) == name,
        base.len() > 0 && (base.last() == '/' || base.last() == separator) ==> layout::joined_path(
            separator,
            base,
            name,
        ) == base + name,
        separator == '/' && base.len() > 0 && base.last() != '/' ==> layout::joined_path(
            separator,
            base,
            name,
        ) == base + "/"@ + name,
        separator == '\\' && base.len() > 0 && base.last() != '/' && base.last() != '\\' && !(
        base.len() == 2 && base[1] == ':') ==> layout::joined_path(separator, base, name) == base
            + "\\"@ + name,
{
    reveal_strlit("/");
    reveal_strlit("\\");
    assert("/"@ =~= seq!['/']);
    assert("\\"@ =~= seq!['\\']);
    if base.len() == 0 {
        assert(base + name =~= name);
    }
    assert(base.push(separator) + name =~= base + seq![separator] + name);
}

proof fn lemma_slash(base: Seq<char>, name: Seq<char>)
    requires
        base.len() > 0,
        base.last() != '/',
        name.len() > 0,
        name.last() != '/',
    ensures
        layout::joined_path('/', base, name) == base + "/"@ + name,
        layout::joined_path('/', base, name).len() > 0,
        layout::joined_path('/', base, name).last() != '/',
{
    law_a_name_is_joined_to_a_path('/', base, name);
    let whole = base + "/"@ + name;
    assert(whole.last() == name.last());
}

/// Where things lie in a directory, where a slash separates.
pub proof fn law_where_things_lie(root: Seq<char>)
    requires
        root.len() > 0,
        root.last() != '/',
    ensures
        layout::gemini_dir('/', root) == root + "/.gemini"@,
        layout::ide_brain_dir('/', root) == root + "/antigravity-ide/brain"@,
        layout::legacy_brain_dir('/', root) == root + "/antigravity/brain"@,
        layout::summaries_file('/', root) == root + "/antigravity-cli/conversation_summaries.db"@,
        layout::projects_file('/', root) == root + "/projects.json"@,
        layout::transcript_file('/', root) == root + "/.system_generated/logs/transcript.jsonl"@,
{
    reveal_strlit("/");
    reveal_strlit(".gemini");
    reveal_strlit("/.gemini");
    lemma_slash(root, ".gemini"@);
    assert("/"@ + ".gemini"@ =~= "/.gemini"@);
    assert(root + "/"@ + ".gemini"@ =~= root + ("/"@ + ".gemini"@));
    reveal_strlit("projects.json");
    reveal_strlit("/projects.json");
    lemma_slash(root, "projects.json"@);
    assert("/"@ + "projects.json"@ =~= "/projects.json"@);
    assert(root + "/"@ + "projects.json"@ =~= root + ("/"@ + "projects.json"@));
    lemma_two_below(root);
    lemma_three_below(root);
}

proof fn lemma_two_slashes(root: Seq<char>, a: Seq<char>, b: Seq<char>, whole: Seq<char>)
    requires
        root.len() > 0,
        root.last() != '/',
        a.len() > 0,
        a.last() != '/',
        b.len() > 0,
        b.last() != '/',
        whole == "/"@ + a + "/"@ + b,
    ensures
        layout::joined_path('/', layout::joined_path('/', root, a), b) == root + whole,
{
    lemma_slash(root, a);
    lemma_slash(root + "/"@ + a, b);
    assert(root + "/"@ + a + "/"@ + b =~= root + whole);
}

proof fn lemma_two_below(root: Seq<char>)
    requires
        root.len() > 0,
        root.last() != '/',
    ensures
        layout::ide_brain_dir('/', root) == root + "/antigravity-ide/brain"@,
        layout::legacy_brain_dir('/', root) == root + "/antigravity/brain"@,
        layout::summaries_file('/', root) == root + "/antigravity-cli/conversation_summaries.db"@,
{
    assert(layout::ide_brain_dir('/', root) == root + "/antigravity-ide/brain"@) by {
        reveal_strlit("/");
        reveal_strlit("brain");
        reveal_strlit("antigravity-ide");
        reveal_strlit("/antigravity-ide/brain");
        assert("/"@ + "antigravity-ide"@ + "/"@ + "brain"@ =~= "/antigravity-ide/brain"@);
        lemma_two_slashes(root, "antigravity-ide"@, "brain"@, "/antigravity-ide/brain"@);
    }
    assert(layout::legacy_brain_dir('/', root) == root + "/antigravity/brain"@) by {
        reveal_strlit("/");
        reveal_strlit("brain");
        reveal_strlit("antigravity");
        reveal_strlit("/antigravity/brain");
        assert("/"@ + "antigravity"@ + "/"@ + "brain"@ =~= "/antigravity/brain"@);
        lemma_two_slashes(root, "antigravity"@, "brain"@, "/antigravity/brain"@);
    }
    lemma_summaries_below(root);
}

proof fn lemma_summaries_below(root: Seq<char>)
    requires
        root.len() > 0,
        root.last() != '/',
    ensures
        layout::summaries_file('/', root) == root + "/antigravity-cli/conversation_summaries.db"@,
{
    reveal_strlit("/");
    reveal_strlit("antigravity-cli");
    reveal_strlit("conversation_summaries.db");
    reveal_strlit("/antigravity-cli/conversation_summaries.db");
    assert("/"@ + "antigravity-cli"@ + "/"@ + "conversation_summaries.db"@
        =~= "/antigravity-cli/conversation_summaries.db"@);
    lemma_two_slashes(
        root,
        "antigravity-cli"@,
        "conversation_summaries.db"@,
        "/antigravity-cli/conversation_summaries.db"@,
    );
}

proof fn lemma_three_below(root: Seq<char>)
    requires
        root.len() > 0,
        root.last() != '/',
    ensures
        layout::transcript_file('/', root) == root + "/.system_generated/logs/transcript.jsonl"@,
{
    reveal_strlit("/");
    reveal_strlit(".system_generated");
    reveal_strlit("logs");
    reveal_strlit("transcript.jsonl");
    reveal_strlit("/.system_generated/logs/transcript.jsonl");
    let a = ".system_generated"@;
    let b = "logs"@;
    let c = "transcript.jsonl"@;
    lemma_slash(root, a);
    lemma_slash(root + "/"@ + a, b);
    lemma_slash(root + "/"@ + a + "/"@ + b, c);
    assert("/"@ + a + "/"@ + b + "/"@ + c =~= "/.system_generated/logs/transcript.jsonl"@);
    assert(root + "/"@ + a + "/"@ + b + "/"@ + c =~= root + ("/"@ + a + "/"@ + b + "/"@ + c));
}

/// Where an adapter looks by default: in the directory of the IDE, unless only that
/// of an older one is there; in the database of the command line tool; and for the
/// projects in their file. It has read nothing.
pub proof fn law_where_an_adapter_looks(
    separator: char,
    home: &str,
    ide: bool,
    legacy: bool,
    r: AntigravityAdapter,
)
    requires
        call_ensures(AntigravityAdapter::new, (separator, home, ide, legacy), r),
    ensures
        ({
            let root = layout::joined_path(separator, home@, ".gemini"@);
            let a = r.deep_view();
            &&& ide || !legacy ==> a.brain_root == Some(
                layout::joined_path(
                    separator,
                    layout::joined_path(separator, root, "antigravity-ide"@),
                    "brain"@,
                ),
            )
            &&& !ide && legacy ==> a.brain_root == Some(
                layout::joined_path(
                    separator,
                    layout::joined_path(separator, root, "antigravity"@),
                    "brain"@,
                ),
            )
            &&& a.cli_db == Some(
                layout::joined_path(
                    separator,
                    layout::joined_path(separator, root, "antigravity-cli"@),
                    "conversation_summaries.db"@,
                ),
            )
            &&& a.projects_json == layout::joined_path(separator, root, "projects.json"@)
            &&& a.separator == separator
            &&& a.rows_cache is None
            &&& a.projects_cache is None
        }),
{
}

/// Where an adapter looks that was made for a directory of the user: at a file as the
/// database; in a directory of conversations, or in one right below; in that of the
/// IDE below, and then also in the database of the command line tool where that is
/// there; else in the database, right below or in its place, whichever is there.
pub proof fn law_where_a_named_directory_is_looked_at(
    separator: char,
    dir: Seq<char>,
    probes: RootProbes,
    home: Seq<char>,
)
    ensures
        ({
            let a = adapter::custom_adapter(separator, dir, probes, home);
            let named = paths::file_name(separator, dir) == Some("brain"@);
            let brain = layout::joined_path(separator, dir, "brain"@);
            let ide = layout::joined_path(
                separator,
                layout::joined_path(separator, dir, "antigravity-ide"@),
                "brain"@,
            );
            let nested = layout::joined_path(
                separator,
                layout::joined_path(separator, dir, "antigravity-cli"@),
                "conversation_summaries.db"@,
            );
            let db = layout::joined_path(separator, dir, "conversation_summaries.db"@);
            let own = layout::joined_path(separator, dir, "projects.json"@);
            let shared = layout::joined_path(
                separator,
                layout::joined_path(separator, home, ".gemini"@),
                "projects.json"@,
            );
            let file = probes.is_file;
            let in_brain = !file && !named && probes.brain_is_dir;
            let in_ide = !file && !named && !probes.brain_is_dir && probes.ide_brain_is_dir;
            let in_db = !file && !named && !probes.brain_is_dir && !probes.ide_brain_is_dir;
            &&& file ==> a.brain_root is None && a.cli_db == Some(dir)
            &&& !file && named ==> a.brain_root == Some(dir) && a.cli_db is None
            &&& in_brain ==> a.brain_root == Some(brain) && a.cli_db is None
            &&& in_ide ==> a.brain_root == Some(ide)
            &&& in_ide && probes.nested_db_is_file ==> a.cli_db == Some(nested)
            &&& in_ide && !probes.nested_db_is_file ==> a.cli_db is None
            &&& in_db ==> a.brain_root is None
            &&& in_db && probes.db_is_file ==> a.cli_db == Some(db)
            &&& in_db && !probes.db_is_file && probes.nested_db_is_file ==> a.cli_db == Some(nested)
            &&& in_db && !probes.db_is_file && !probes.nested_db_is_file ==> a.cli_db == Some(db)
            &&& probes.projects_is_file ==> a.projects_json == own
            &&& !probes.projects_is_file ==> a.projects_json == shared
            &&& a.separator == separator
            &&& a.rows_cache is None
            &&& a.projects_cache is None
        }),
{
}

/// The places to watch are the directory of conversations and the database, in this
/// order, as far as there are any.
pub proof fn law_the_places_to_watch(a: AdapterModel)
    ensures
        ({
            let roots = adapter::roots_of(a);
            &&& a.brain_root is Some && a.cli_db is Some ==> roots == seq![
                a.brain_root->0,
                a.cli_db->0,
            ]
            &&& a.brain_root is Some && a.cli_db is None ==> roots == seq![a.brain_root->0]
            &&& a.brain_root is None && a.cli_db is Some ==> roots == seq![a.cli_db->0]
            &&& a.brain_root is None && a.cli_db is None ==> roots.len() == 0
        }),
{
    let roots = adapter::roots_of(a);
    if a.brain_root is Some && a.cli_db is Some {
        assert(roots =~= seq![a.brain_root->0, a.cli_db->0]);
    } else if a.brain_root is Some {
        assert(roots =~= seq![a.brain_root->0]);
    } else if a.cli_db is Some {
        assert(roots =~= seq![a.cli_db->0]);
    }
}

/// The summaries are those kept for the stamp, and those loaded where none are kept
/// for it; without a database there are none.
pub proof fn law_which_summaries_there_are(
    a: AdapterModel,
    stamp: i64,
    loaded: Option<Seq<AgRowModel>>,
)
    ensures
        ({
            let rows = adapter::rows_after(a, stamp, loaded);
            &&& a.cli_db is None ==> rows is None
            &&& a.cli_db is Some && (a.rows_cache matches Some(cache) && cache.0 == stamp)
                ==> rows == Some((a.rows_cache->0).1)
            &&& a.cli_db is Some && !(a.rows_cache matches Some(cache) && cache.0 == stamp)
                ==> rows == loaded
        }),
        a.has_rows(stamp) <==> (a.rows_cache matches Some(cache) && cache.0 == stamp),
        a.has_projects(stamp) <==> (a.projects_cache matches Some(cache) && cache.0 == stamp),
        a.projects_cache matches Some(cache) ==> a.projects() == cache.1,
        a.projects_cache is None ==> a.projects().len() == 0,
{
}

/// The projects are the members of the member of that name that are strings.
pub proof fn law_the_projects_of_a_text(raw: Seq<char>, members: Map<Seq<char>, Json>, key: Seq<char>)
    ensures
        projects::projects_in(None).get(key) is None,
        crate::json::parsed_json(raw) is None ==> projects::projects_in(Some(raw)).get(key) is None,
        crate::json::parsed_json(raw) == Some(Json::Object(members)) ==> projects::projects_in(
            Some(raw),
        ).get(key) == match members.get("projects"@) {
            Some(Json::Object(list)) => match list.get(key) {
                Some(Json::Str(name)) => Some(name),
                _ => None,
            },
            _ => None,
        },
{
}

/// Whether two characters are the same where slashes and backslashes are.
pub open spec fn same_but_slashes(a: char, b: char) -> bool {
    a == b || (a == '/' && b == '\\') || (a == '\\' && b == '/')
}

/// Whether a path begins with a directory, where upper and lower case, and slashes
/// and backslashes, are the same.
pub open spec fn lies_under(path: Seq<char>, dir: Seq<char>) -> bool {
    let p = projects::lowercase(path);
    let d = projects::lowercase(dir);
    d.len() <= p.len() && forall|i: int|
        #![trigger d[i]]
        0 <= i < d.len() ==> same_but_slashes(d[i], p[i])
}

proof fn lemma_lies_under(path: Seq<char>, dir: Seq<char>)
    ensures
        projects::begins_with_dir(projects::lowercase(path), projects::lowercase(dir))
            <==> lies_under(path, dir),
{
    let p = projects::lowercase(path);
    let d = projects::lowercase(dir);
    let a = projects::backslashed(d);
    let b = projects::backslashed(p);
    if a.is_prefix_of(b) {
        assert forall|i: int| #![trigger d[i]] 0 <= i < d.len() implies same_but_slashes(
            d[i],
            p[i],
        ) by {
            assert(a[i] == b.subrange(0, a.len() as int)[i]);
        }
    }
    if lies_under(path, dir) {
        assert forall|i: int| 0 <= i < a.len() implies a[i] == #[trigger] b.subrange(
            0,
            a.len() as int,
        )[i] by {
            assert(same_but_slashes(d[i], p[i]));
        }
        assert(a =~= b.subrange(0, a.len() as int));
    }
}

/// The project of a path is one whose directory the path lies under, and none has a
/// longer one; there is one exactly where the path is not empty and lies under any.
pub proof fn law_the_project_of_a_path(list: Seq<(Seq<char>, Seq<char>)>, path: Seq<char>)
    ensures
        match projects::project_path_of(list, path) {
            Some(dir) => {
                &&& path.len() > 0
                &&& exists|i: int|
                    #![trigger list[i]]
                    0 <= i < list.len() && list[i].0 == dir && lies_under(path, list[i].0)
                        && forall|j: int|
                        #![trigger list[j]]
                        0 <= j < list.len() && lies_under(path, list[j].0)
                            ==> projects::lowercase(list[j].0).len() <= projects::lowercase(
                            list[i].0,
                        ).len()
            },
            None => path.len() == 0 || forall|j: int|
                #![trigger list[j]]
                0 <= j < list.len() ==> !lies_under(path, list[j].0),
        },
{
    if path.len() > 0 {
        let dirs = projects::lower_dirs(list);
        let wanted = projects::lowercase(path);
        crate::laws::law_the_longest_directory_is_found(dirs, wanted);
        assert forall|j: int| #![trigger list[j]] 0 <= j < list.len() implies dirs[j]
            == projects::lowercase(list[j].0) && (projects::begins_with_dir(wanted, dirs[j])
            <==> lies_under(path, list[j].0)) by {
            lemma_lies_under(path, list[j].0);
        }
        match projects::longest_dir(dirs, wanted) {
            Some(k) => {
                assert(list[k].0 == list[k].0);
                assert forall|j: int|
                    #![trigger list[j]]
                    0 <= j < list.len() && lies_under(path, list[j].0) implies projects::lowercase(
                    list[j].0,
                ).len() <= projects::lowercase(list[k].0).len() by {
                    assert(projects::begins_with_dir(wanted, dirs[j]));
                }
            },
            None => {
                assert forall|j: int| #![trigger list[j]] 0 <= j < list.len() implies !lies_under(
                    path,
                    list[j].0,
                ) by {
                    assert(!projects::begins_with_dir(wanted, dirs[j]));
                }
            },
        }
    }
}

/// The title of a conversation: the first of two that is left with anything once it
/// is cleaned, else that of a session that has none.
pub open spec fn title_shown<C: Conventions>(rules: &C, first: Seq<char>, second: Seq<char>) -> Seq<
    char,
> {
    if rules.title_of(first).len() > 0 {
        rules.title_of(first)
    } else if rules.title_of(second).len() > 0 {
        rules.title_of(second)
    } else {
        rules.no_title()
    }
}

/// What a conversation that there is only a summary of shows, and what is said in
/// its place: the preview, where there is one, and a remark. The first summary with
/// the identifier of the reference counts.
pub proof fn law_a_summary_is_read<C: Conventions>(
    adapter: AdapterModel,
    rules: &C,
    r: RefModel,
    source: sessions::SessionSource,
    i: int,
)
    requires
        r.file_path.contains('#'),
        source.rows.deep_view() matches Some(rows) && 0 <= i < rows.len() && rows[i].id
            == r.native_id && forall|j: int|
            #![trigger rows[j]]
            0 <= j < i ==> rows[j].id != r.native_id,
    ensures
        ({
            let row = source.rows.deep_view()->0[i];
            let time = if row.modified_ms > 0 {
                row.modified_ms
            } else {
                r.mtime_ms
            };
            let remark =
                "Antigravity stores conversation content encrypted — only this summary is available in Wake."@;
            let said = if text::trimmed(row.preview).len() > 0 {
                text::trimmed(row.preview) + "\n\n"@ + remark
            } else {
                remark
            };
            &&& sessions::outcome_of(adapter, rules, r, source) matches Ok(parts)
            &&& parts.0 == (MetaModel {
                key: "antigravity:"@ + row.id,
                host: Seq::empty(),
                id: row.id,
                agent: AgentId::Antigravity,
                title: title_shown(rules, row.title, row.preview),
                project_path: row.cwd,
                project_name: rules.project_of(row.cwd),
                file_path: r.file_path,
                created_at: time,
                updated_at: time,
                message_count: row.step_count,
                size_bytes: r.size,
                git_branch: None,
                model: None,
                tokens_used: None,
                archived: false,
                source: None,
                favorite: false,
                pinned: false,
            })
            &&& parts.1 == seq![
                MessageModel { seq: 0, ..rules.note(Role::System, said, row.modified_ms) },
            ]
            &&& parts.2 == 0
        }),
{
    let rows = source.rows.deep_view()->0;
    crate::laws::lemma_first_row(rows, r.native_id);
    match sessions::first_row(rows, r.native_id) {
        Some(k) => {
            if k < i {
                assert(rows[k].id != r.native_id);
            }
            if i < k {
                assert(rows[i].id != r.native_id);
            }
        },
        None => {
            assert(rows[i].id != r.native_id);
        },
    }
    let parts = sessions::outcome_of(adapter, rules, r, source)->Ok_0;
    assert(parts.1 =~= seq![parts.1[0]]);
}

/// What is shown before reading: references are taken one by one, a later one in the
/// place of an earlier with the same path. One to a summary that the store holds is
/// shown by that summary, the last with its identifier, and any other not at all.
pub proof fn law_references_are_shown_one_by_one<C: Conventions>(
    rules: &C,
    refs: Seq<RefModel>,
    r: RefModel,
    rows: Seq<AgRowModel>,
    i: int,
    path: Seq<char>,
)
    ensures
        ({
            let before = sessions::quick_metas(rules, refs, rows);
            let after = sessions::quick_metas(rules, refs.push(r), rows);
            let in_store = r.file_path.contains('#');
            let is_last = 0 <= i < rows.len() && rows[i].id == r.native_id && forall|j: int|
                #![trigger rows[j]]
                i < j < rows.len() ==> rows[j].id != r.native_id;
            let is_absent = forall|j: int|
                #![trigger rows[j]]
                0 <= j < rows.len() ==> rows[j].id != r.native_id;
            &&& in_store && is_last && path == r.file_path ==> after.get(path) == Some(
                sessions::cli_meta(rules, r, rows[i]),
            )
            &&& path != r.file_path || !in_store || is_absent ==> after.get(path) == before.get(
                path,
            )
        }),
        sessions::quick_metas(rules, Seq::empty(), rows).get(path) is None,
{
    let all = refs.push(r);
    assert(all.drop_last() =~= refs);
    crate::laws::lemma_last_row(rows, r.native_id);
    match sessions::last_row(rows, r.native_id) {
        Some(k) => {
            if 0 <= i < rows.len() && rows[i].id == r.native_id {
                if i < k {
                    assert(rows[k].id == r.native_id);
                }
                if k < i {
                    assert(rows[i].id != r.native_id);
                }
            }
            assert(rows[k].id == r.native_id);
        },
        None => {},
    }
}

/// Why a session cannot be read: a summary where the store could not be read, or
/// holds none of the conversation; a transcript where it could not be opened.
pub proof fn law_why_a_session_cannot_be_read<C: Conventions>(
    adapter: AdapterModel,
    rules: &C,
    r: RefModel,
    source: sessions::SessionSource,
)
    ensures
        ({
            let outcome = sessions::outcome_of(adapter, rules, r, source);
            let in_store = r.file_path.contains('#');
            &&& in_store && source.rows is None ==> outcome == Err::<
                (MetaModel, Seq<MessageModel>, int),
                ErrorModel,
            >(ErrorModel::StoreUnavailable)
            &&& in_store && (source.rows.deep_view() matches Some(rows) && forall|j: int|
                #![trigger rows[j]]
                0 <= j < rows.len() ==> rows[j].id != r.native_id) ==> outcome == Err::<
                (MetaModel, Seq<MessageModel>, int),
                ErrorModel,
            >(ErrorModel::NotInStore(r.native_id))
            &&& !in_store && (source.transcript matches Err(why)) ==> outcome == Err::<
                (MetaModel, Seq<MessageModel>, int),
                ErrorModel,
            >(ErrorModel::TranscriptUnreadable(source.transcript->Err_0@))
            &&& !in_store && source.transcript is Ok ==> outcome is Ok
        }),
        sessions::error_text(ErrorModel::StoreUnavailable)
            == "cannot open antigravity summaries store"@,
        sessions::error_text(ErrorModel::NotInStore(r.native_id)) == "antigravity conversation "@
            + r.native_id + " not in store"@,
        sessions::error_text(ErrorModel::TranscriptUnreadable(r.file_path)) == r.file_path,
{
    if source.rows is Some {
        let rows = source.rows.deep_view()->0;
        crate::laws::lemma_first_row(rows, r.native_id);
    }
}

/// What a conversation that there is a transcript of shows: its messages and all that
/// the transcript says, under the identifier and with the size of the reference. Its
/// project is that of the path that the transcript tells, of the directory of that
/// path where it is that of a file.
pub proof fn law_a_transcript_is_shown<C: Conventions>(
    adapter: AdapterModel,
    rules: &C,
    r: RefModel,
    source: sessions::SessionSource,
    parsed: IdeParseModel,
)
    requires
        !r.file_path.contains('#'),
        source.transcript matches Ok(t) && t.parsed.deep_view() == parsed,
    ensures
        ({
            let is_file = source.transcript->Ok_0.project_is_file;
            let told = match parsed.project_path {
                Some(path) => path,
                None => Seq::empty(),
            };
            let from_file = told.len() > 0 && (is_file || paths::has_extension(
                adapter.separator,
                told,
            )) && paths::parent(adapter.separator, told) is Some;
            let dir = if from_file {
                paths::parent(adapter.separator, told)->0
            } else {
                told
            };
            let found = projects::project_path_of(adapter.projects(), dir);
            &&& sessions::outcome_of(adapter, rules, r, source) matches Ok(parts)
            &&& found is Some ==> parts.0.project_path == found->0
            &&& found is None ==> parts.0.project_path == dir
            &&& parts.0.project_name == rules.project_of(parts.0.project_path)
            &&& parts.0.key == "antigravity:"@ + r.native_id
            &&& parts.0.id == r.native_id
            &&& parts.0.file_path == r.file_path
            &&& parts.0.size_bytes == r.size
            &&& parts.0.message_count == parsed.messages.len() as i64
            &&& parts.0.model == parsed.model
            &&& parsed.created_at > 0 ==> parts.0.created_at == parsed.created_at
            &&& parsed.created_at <= 0 ==> parts.0.created_at == r.mtime_ms
            &&& parsed.updated_at > 0 ==> parts.0.updated_at == parsed.updated_at
            &&& parsed.updated_at <= 0 ==> parts.0.updated_at == r.mtime_ms
            &&& (parsed.title matches Some(t) && t.len() > 0 && rules.title_of(t).len() > 0)
                ==> parts.0.title == rules.title_of(parsed.title->0)
            &&& !(parsed.title matches Some(t) && t.len() > 0 && rules.title_of(t).len() > 0)
                ==> parts.0.title == rules.no_title()
            &&& parts.0.agent == AgentId::Antigravity
            &&& parts.0.host.len() == 0
            &&& parts.0.git_branch is None
            &&& parts.0.tokens_used is None
            &&& parts.0.source is None
            &&& !parts.0.archived
            &&& !parts.0.favorite
            &&& !parts.0.pinned
            &&& parts.1 == parsed.messages
            &&& parts.2 == parsed.unknown_lines
        }),
{
}

/// The paths that a session takes up: the directory three parts above its transcript
/// where that is there, else its own path.
pub proof fn law_what_a_session_takes_up(separator: char, path: Seq<char>, is_dir: bool)
    ensures
        ({
            let tail = "transcript.jsonl"@;
            let ends = path.len() >= tail.len() && path.skip(path.len() - tail.len()) == tail;
            let above = paths::third_parent(separator, path);
            &&& ends && is_dir && above is Some ==> sessions::paths_of(separator, path, is_dir)
                == seq![above->0]
            &&& !(ends && is_dir && above is Some) ==> sessions::paths_of(separator, path, is_dir)
                == seq![path]
            &&& above == match paths::parent(separator, path) {
                Some(a) => match paths::parent(separator, a) {
                    Some(b) => paths::parent(separator, b),
                    None => None,
                },
                None => None,
            }
        }),
{
    let tail = "transcript.jsonl"@;
    if path.len() >= tail.len() {
        assert(path.skip(path.len() - tail.len()) =~= path.subrange(
            path.len() - tail.len(),
            path.len() as int,
        ));
    }
}

/// What the store is asked.
pub proof fn law_what_the_store_is_asked(r: &str)
    requires
        call_ensures(store::summaries_query, (), r),
    ensures
        r@
            == "SELECT conversation_id, title, preview, step_count, last_modified_time, workspace_uris FROM conversation_summaries WHERE parent_conversation_id = '' AND nesting_depth = 0"@,
{
}

/// What a summary holds: the columns of its row, empty or zero where they are
/// missing, its time without the white space round it, and the directory of its
/// first workspace.
pub proof fn law_what_a_summary_holds<C: Conventions>(rules: &C, columns: store::SummaryColumns)
    ensures
        ({
            let row = store::summary_of(rules, columns);
            let time = match columns.last_modified_time {
                Some(s) => s@,
                None => Seq::empty(),
            };
            let uris = match columns.workspace_uris {
                Some(s) => s@,
                None => Seq::empty(),
            };
            &&& row.id == columns.conversation_id@
            &&& columns.title matches Some(s) ==> row.title == s@
            &&& columns.title is None ==> row.title.len() == 0
            &&& columns.preview matches Some(s) ==> row.preview == s@
            &&& columns.preview is None ==> row.preview.len() == 0
            &&& columns.step_count matches Some(n) ==> row.step_count == n
            &&& columns.step_count is None ==> row.step_count == 0
            &&& row.modified_ms == rules.store_time(text::trimmed(time))
            &&& row.cwd == workspace::first_workspace_in(uris)
            &&& workspace::can_resolve_first(store::workspaces_in(columns))
                == workspace::can_resolve_first(uris)
        }),
{
}

/// The directory of the first workspace: the first item of a list in JSON, where it
/// is a string, without the scheme of files before it, its escapes resolved; empty
/// where there is none.
pub proof fn law_the_first_workspace(raw: Seq<char>, items: Seq<Json>, uri: Seq<char>)
    ensures
        ({
            let read = crate::json::parsed_json(raw);
            let listed = read == Some(Json::Array(items)) && items.len() > 0 && items[0]
                == Json::Str(uri);
            let marked = uri.len() >= 7 && uri.take(7) == "file://"@;
            &&& listed && marked ==> workspace::first_workspace_in(raw)
                == workspace::percent_decoded(uri.skip(7)) && (workspace::can_resolve_first(raw)
                <==> workspace::pairs_are_whole(uri.skip(7)))
            &&& listed && !marked ==> workspace::first_workspace_in(raw)
                == workspace::percent_decoded(uri) && (workspace::can_resolve_first(raw)
                <==> workspace::pairs_are_whole(uri))
            &&& read is None || !(read->0 is Array) || (read == Some(Json::Array(items)) && (
            items.len() == 0 || !(items[0] is Str))) ==> workspace::first_workspace_in(raw).len()
                == 0 && workspace::can_resolve_first(raw)
        }),
{
    reveal_strlit("file://");
    assert("file://"@.len() == 7);
    if uri.len() >= 7 {
        assert(uri.take(7) =~= uri.subrange(0, 7));
    }
}

/// Escapes are resolved from left to right: a percent sign and two hexadecimal
/// digits, or a plus sign and one, stand for one byte, and any other byte for
/// itself.
pub proof fn law_escapes_are_resolved_in_turn(bytes: Seq<u8>, x: int, y: int)
    requires
        bytes.len() > 0,
    ensures
        bytes[0] != 37 ==> workspace::unescaped(bytes) == seq![bytes[0]] + workspace::unescaped(
            bytes.skip(1),
        ),
        bytes[0] == 37 && bytes.len() <= 2 ==> workspace::unescaped(bytes) == seq![bytes[0]]
            + workspace::unescaped(bytes.skip(1)),
        bytes[0] == 37 && bytes.len() > 2 && is_hex(bytes[1], x) && is_hex(bytes[2], y)
            ==> workspace::unescaped(bytes) == seq![(16 * x + y) as u8] + workspace::unescaped(
            bytes.skip(3),
        ),
        bytes[0] == 37 && bytes.len() > 2 && bytes[1] == 43 && is_hex(bytes[2], y)
            ==> workspace::unescaped(bytes) == seq![y as u8] + workspace::unescaped(bytes.skip(3)),
        bytes[0] == 37 && bytes.len() > 2 && (is_no_hex(bytes[2]) || (is_no_hex(bytes[1])
            && bytes[1] != 43)) ==> workspace::unescaped(bytes) == seq![bytes[0]]
            + workspace::unescaped(bytes.skip(1)),
        workspace::unescaped(Seq::empty()).len() == 0,
{
}

/// Whether a byte is the hexadecimal digit of a value.
pub open spec fn is_hex(b: u8, value: int) -> bool {
    ||| 0 <= value <= 9 && b == 48 + value
    ||| 10 <= value <= 15 && (b == 55 + value || b == 87 + value)
}

/// Whether a byte is no hexadecimal digit.
pub open spec fn is_no_hex(b: u8) -> bool {
    !(48 <= b <= 57) && !(65 <= b <= 70) && !(97 <= b <= 102)
}

/// The text of resolved escapes is that of their bytes, where these are UTF-8. A text
/// can be resolved exactly where no pair behind a percent sign cuts a character.
pub proof fn law_what_escapes_resolve_to(s: Seq<char>)
    ensures
        ({
            let bytes = vstd::utf8::encode_utf8(s);
            let plain = workspace::unescaped(bytes);
            &&& vstd::utf8::valid_utf8(plain) ==> workspace::percent_decoded(s)
                == vstd::utf8::decode_utf8(plain)
            &&& !vstd::utf8::valid_utf8(plain) ==> workspace::percent_decoded(s)
                == workspace::utf8_lossy(plain)
            &&& workspace::pairs_are_whole(s) <==> forall|i: int|
                #![trigger bytes[i]]
                0 <= i && i + 2 < bytes.len() && bytes[i] == 37 ==> vstd::utf8::is_char_boundary(
                    bytes,
                    i + 3,
                )
        }),
{
}

/// What the laws say of the models of references, messages, calls and summaries they
/// say of what is handed out.
pub proof fn law_models_hold_what_is_handed_out(
    r: SessionFileRef,
    meta: SessionMeta,
    m: TranscriptMessage,
    call: ToolCallView,
    row: AgRow,
)
    ensures
        r.deep_view().native_id == r.native_id@,
        r.deep_view().file_path == r.file_path@,
        r.deep_view().mtime_ms == r.mtime_ms,
        r.deep_view().size == r.size,
        meta.deep_view().key == meta.key@,
        meta.deep_view().id == meta.id@,
        meta.deep_view().title == meta.title@,
        meta.deep_view().project_path == meta.project_path@,
        meta.deep_view().project_name == meta.project_name@,
        meta.deep_view().file_path == meta.file_path@,
        meta.deep_view().created_at == meta.created_at,
        meta.deep_view().updated_at == meta.updated_at,
        meta.deep_view().message_count == meta.message_count,
        meta.deep_view().size_bytes == meta.size_bytes,
        meta.model matches Some(s) ==> meta.deep_view().model == Some(s@),
        meta.model is None ==> meta.deep_view().model is None,
        m.deep_view().seq == m.seq,
        m.deep_view().role == m.role,
        m.deep_view().kind == m.kind,
        m.deep_view().text == m.text@,
        m.deep_view().truncated == m.truncated,
        m.deep_view().timestamp == m.timestamp,
        m.thinking matches Some(s) ==> m.deep_view().thinking == Some(s@),
        m.thinking is None ==> m.deep_view().thinking is None,
        m.model matches Some(s) ==> m.deep_view().model == Some(s@),
        m.model is None ==> m.deep_view().model is None,
        m.deep_view().tool_calls.len() == m.tool_calls@.len(),
        forall|i: int|
            #![trigger m.tool_calls@[i]]
            0 <= i < m.tool_calls@.len() ==> m.deep_view().tool_calls[i]
                == m.tool_calls@[i].deep_view(),
        call.deep_view().id == call.id@,
        call.deep_view().name == call.name@,
        call.deep_view().input_preview == call.input_preview@,
        call.deep_view().is_error == call.is_error,
        call.input matches Some(s) ==> call.deep_view().input == Some(s@),
        call.input is None ==> call.deep_view().input is None,
        call.output matches Some(s) ==> call.deep_view().output == Some(s@),
        call.output is None ==> call.deep_view().output is None,
        row.deep_view().id == row.id@,
        row.deep_view().title == row.title@,
        row.deep_view().preview == row.preview@,
        row.deep_view().step_count == row.step_count,
        row.deep_view().modified_ms == row.modified_ms,
        row.deep_view().cwd == row.cwd@,
{
}

} // verus!
