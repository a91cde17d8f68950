//! The store of the command line tool, which keeps a summary of each
//! conversation.

use crate::conventions::Conventions;
use crate::row;
use crate::text;
use crate::text::trim_text;
use crate::workspace;
use crate::workspace::try_first_workspace;
use vstd::prelude::*;

verus! {

/// The question that the store is asked: the columns of each conversation that is
/// not part of another.
pub fn summaries_query() -> (r: &'static str)
    ensures
        r@ == "SELECT conversation_id, title, preview, step_count, last_modified_time, workspace_uris FROM conversation_summaries WHERE parent_conversation_id = '' AND nesting_depth = 0"@,
{
    "SELECT conversation_id, title, preview, step_count, last_modified_time, workspace_uris FROM conversation_summaries WHERE parent_conversation_id = '' AND nesting_depth = 0"
}

/// The columns of a summary as the store hands them out.
pub struct SummaryColumns {
    pub conversation_id: String,
    pub title: Option<String>,
    pub preview: Option<String>,
    pub step_count: Option<i64>,
    pub last_modified_time: Option<String>,
    pub workspace_uris: Option<String>,
}

/// The summary of a conversation.
pub struct AgRow {
    pub id: String,
    pub title: String,
    pub preview: String,
    pub step_count: i64,
    pub modified_ms: i64,
    pub cwd: String,
}

/// The model of a summary.
#[verifier::ext_equal]
pub struct AgRowModel {
    pub id: Seq<char>,
    pub title: Seq<char>,
    pub preview: Seq<char>,
    pub step_count: i64,
    pub modified_ms: i64,
    pub cwd: Seq<char>,
}

impl DeepView for AgRow {
    type V = AgRowModel;

    open spec fn deep_view(&self) -> AgRowModel {
        AgRowModel {
            id: self.id@,
            title: self.title@,
            preview: self.preview@,
            step_count: self.step_count,
            modified_ms: self.modified_ms,
            cwd: self.cwd@,
        }
    }
}

impl Clone for AgRow {
    fn clone(&self) -> (r: AgRow)
        ensures
            r.deep_view() == self.deep_view(),
    {
        AgRow {
            id: self.id.clone(),
            title: self.title.clone(),
            preview: self.preview.clone(),
            step_count: self.step_count,
            modified_ms: self.modified_ms,
            cwd: self.cwd.clone(),
        }
    }
}

/// A copy of summaries.
pub(crate) fn copy_rows(rows: &Vec<AgRow>) -> (r: Vec<AgRow>)
    ensures
        r.deep_view() == rows.deep_view(),
{
    let mut out: Vec<AgRow> = Vec::new();
    let mut i: usize = 0;
    while i < rows.len()
        invariant
            i <= rows@.len(),
            out@.len() == i,
            forall|j: int|
                #![trigger out@[j]]
                0 <= j < i ==> out@[j].deep_view() == rows@[j].deep_view(),
        decreases rows@.len() - i,
    {
        out.push(rows[i].clone());
        i = i + 1;
    }
    assert(out.deep_view() =~= rows.deep_view());
    out
}

/// The text of the workspace list of a summary.
pub open spec fn workspaces_in(columns: SummaryColumns) -> Seq<char> {
    row::or_empty(columns.workspace_uris.deep_view())
}

/// The summary that the columns hold. What is missing is empty or zero, the
/// time is read without the white space round it, and the directory is that of
/// the first workspace.
pub open spec fn summary_of<C: Conventions>(rules: &C, columns: SummaryColumns) -> AgRowModel {
    AgRowModel {
        id: columns.conversation_id@,
        title: row::or_empty(columns.title.deep_view()),
        preview: row::or_empty(columns.preview.deep_view()),
        step_count: match columns.step_count {
            Some(n) => n,
            None => 0,
        },
        modified_ms: rules.store_time(
            text::trimmed(row::or_empty(columns.last_modified_time.deep_view())),
        ),
        cwd: workspace::first_workspace_in(workspaces_in(columns)),
    }
}

fn or_blank(text: Option<String>) -> (r: String)
    ensures
        r@ == row::or_empty(text.deep_view()),
{
    match text {
        Some(s) => s,
        None => String::new(),
    }
}

/// The summary that the columns hold, and `None` where the escapes in the first
/// workspace cannot be resolved.
pub fn read_summary<C: Conventions>(rules: &C, columns: SummaryColumns) -> (r: Option<AgRow>)
    ensures
        r.deep_view() == (if workspace::can_resolve_first(workspaces_in(columns)) {
            Some(summary_of(rules, columns))
        } else {
            None
        }),
{
    let uris = or_blank(columns.workspace_uris);
    match try_first_workspace(uris.as_str()) {
        Some(cwd) => {
            let time = or_blank(columns.last_modified_time);
            let modified_ms: i64 = rules.sqlite_dt_ms(trim_text(time.as_str()).as_str());
            Some(
                AgRow {
                    id: columns.conversation_id,
                    title: or_blank(columns.title),
                    preview: or_blank(columns.preview),
                    step_count: match columns.step_count {
                        Some(n) => n,
                        None => 0,
                    },
                    modified_ms,
                    cwd,
                },
            )
        },
        None => None,
    }
}

} // verus!
