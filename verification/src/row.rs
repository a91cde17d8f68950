//! One line of a transcript: a step that the IDE recorded.

use crate::json;
use crate::json::{member, str_member};
use crate::text::same_text;
use crate::tool_args;
use crate::tool_args::{read_args, ToolArgs, ToolArgsModel};
use vstd::prelude::*;

verus! {

/// A call of a tool as a step records it.
pub struct ToolCallRow {
    pub name: String,
    pub args: Option<ToolArgs>,
}

/// The model of a recorded call.
#[verifier::ext_equal]
pub struct ToolCallRowModel {
    pub name: Seq<char>,
    pub args: Option<ToolArgsModel>,
}

impl DeepView for ToolCallRow {
    type V = ToolCallRowModel;

    open spec fn deep_view(&self) -> ToolCallRowModel {
        ToolCallRowModel { name: self.name@, args: self.args.deep_view() }
    }
}

/// A step of a transcript.
pub struct Row {
    pub step_type: String,
    pub status: String,
    pub created_at: String,
    pub content: Option<String>,
    pub thinking: Option<String>,
    pub tool_calls: Option<Vec<ToolCallRow>>,
    pub step_index: i64,
}

/// The model of a step.
#[verifier::ext_equal]
pub struct RowModel {
    pub step_type: Seq<char>,
    pub status: Seq<char>,
    pub created_at: Seq<char>,
    pub content: Option<Seq<char>>,
    pub thinking: Option<Seq<char>>,
    pub tool_calls: Option<Seq<ToolCallRowModel>>,
    pub step_index: i64,
}

impl DeepView for Row {
    type V = RowModel;

    open spec fn deep_view(&self) -> RowModel {
        RowModel {
            step_type: self.step_type@,
            status: self.status@,
            created_at: self.created_at@,
            content: self.content.deep_view(),
            thinking: self.thinking.deep_view(),
            tool_calls: self.tool_calls.deep_view(),
            step_index: self.step_index,
        }
    }
}

/// A text that may be missing; an empty one stands for it.
pub open spec fn or_empty(text: Option<Seq<char>>) -> Seq<char> {
    match text {
        Some(s) => s,
        None => Seq::empty(),
    }
}

/// The call that a JSON value records. A call without a name is one of a tool.
pub open spec fn call_of(value: json::Json) -> ToolCallRowModel {
    ToolCallRowModel {
        name: match value.str_member("name"@) {
            Some(name) => name,
            None => "tool"@,
        },
        args: match value.member("args"@) {
            Some(args) => Some(tool_args::args_of(args)),
            None => None,
        },
    }
}

/// The calls that a JSON value records, where it is an array.
pub open spec fn calls_of(value: json::Json) -> Option<Seq<ToolCallRowModel>> {
    match value.items() {
        Some(items) => Some(items.map_values(|item: json::Json| call_of(item))),
        None => None,
    }
}

/// The step that a JSON value records.
pub open spec fn row_of(value: json::Json) -> RowModel {
    RowModel {
        step_type: or_empty(value.str_member("type"@)),
        status: or_empty(value.str_member("status"@)),
        created_at: or_empty(value.str_member("created_at"@)),
        content: value.str_member("content"@),
        thinking: value.str_member("thinking"@),
        tool_calls: match value.member("tool_calls"@) {
            Some(calls) => calls_of(calls),
            None => None,
        },
        step_index: match value.member("step_index"@) {
            Some(index) => match index.integer() {
                Some(n) => n,
                None => 0,
            },
            None => 0,
        },
    }
}

fn owned(text: Option<&str>) -> (r: Option<String>)
    ensures
        match text {
            Some(s) => r.deep_view() == Some(s@),
            None => r is None,
        },
{
    match text {
        Some(s) => Some(s.to_string()),
        None => None,
    }
}

fn owned_or_empty(text: Option<&str>) -> (r: String)
    ensures
        match text {
            Some(s) => r@ == s@,
            None => r@ == Seq::<char>::empty(),
        },
{
    match text {
        Some(s) => s.to_string(),
        None => String::new(),
    }
}

fn read_call(value: &serde_json::Value) -> (r: ToolCallRow)
    ensures
        r.deep_view() == call_of(json::json_tree(*value)),
{
    let name = match str_member(value, "name") {
        Some(name) => name.to_string(),
        None => "tool".to_string(),
    };
    let args = match member(value, "args") {
        Some(args) => Some(read_args(args)),
        None => None,
    };
    ToolCallRow { name, args }
}

fn read_calls(value: &serde_json::Value) -> (r: Option<Vec<ToolCallRow>>)
    ensures
        r.deep_view() == calls_of(json::json_tree(*value)),
{
    match value.as_array() {
        Some(items) => {
            let ghost trees = json::json_trees(items@);
            let mut calls: Vec<ToolCallRow> = Vec::new();
            let mut i: usize = 0;
            while i < items.len()
                invariant
                    i <= items@.len(),
                    trees == json::json_trees(items@),
                    calls@.len() == i,
                    forall|k: int|
                        #![trigger calls.deep_view()[k]]
                        0 <= k < i ==> calls.deep_view()[k] == call_of(trees[k]),
                decreases items@.len() - i,
            {
                let ghost before = calls.deep_view();
                let call = read_call(&items[i]);
                calls.push(call);
                assert(calls.deep_view() =~= before.push(call.deep_view()));
                i = i + 1;
            }
            assert(calls.deep_view() =~= trees.map_values(|item: json::Json| call_of(item)));
            Some(calls)
        },
        None => None,
    }
}

/// The step that a JSON value records.
pub fn read_row(value: &serde_json::Value) -> (r: Row)
    ensures
        r.deep_view() == row_of(json::json_tree(*value)),
{
    let tool_calls = match member(value, "tool_calls") {
        Some(calls) => read_calls(calls),
        None => None,
    };
    let step_index: i64 = match member(value, "step_index") {
        Some(index) => match index.as_i64() {
            Some(n) => n,
            None => 0,
        },
        None => 0,
    };
    Row {
        step_type: owned_or_empty(str_member(value, "type")),
        status: owned_or_empty(str_member(value, "status")),
        created_at: owned_or_empty(str_member(value, "created_at")),
        content: owned(str_member(value, "content")),
        thinking: owned(str_member(value, "thinking")),
        tool_calls,
        step_index,
    }
}

/// What a step means for the transcript.
#[derive(Clone, Copy, Debug, PartialEq, Eq, Structural)]
pub enum StepKind {
    /// The user speaks.
    UserInput,
    /// The model answers, thinks or calls tools.
    PlannerResponse,
    /// A tool has done its work.
    ToolResult,
    /// What was said so far is summed up.
    Checkpoint,
    /// Nothing that a reader would miss.
    Ignored,
    /// Nothing that is known.
    Unknown,
}

/// The types of the steps that report on a tool.
pub open spec fn result_types() -> Seq<Seq<char>> {
    seq![
        "VIEW_FILE"@,
        "RUN_COMMAND"@,
        "GREP_SEARCH"@,
        "LIST_DIRECTORY"@,
        "CODE_ACTION"@,
        "BROWSER_SUBAGENT"@,
        "SEARCH_WEB"@,
        "READ_URL_CONTENT"@,
        "ASK_QUESTION"@,
        "GENERIC"@,
        "ERROR_MESSAGE"@,
    ]
}

/// The types of the steps that say nothing to a reader.
pub open spec fn ignored_types() -> Seq<Seq<char>> {
    seq!["CONVERSATION_HISTORY"@, "KNOWLEDGE_ARTIFACTS"@, "SYSTEM_MESSAGE"@]
}

/// What a step of the given type means.
pub open spec fn kind_of_step(step_type: Seq<char>) -> StepKind {
    if step_type == "USER_INPUT"@ {
        StepKind::UserInput
    } else if step_type == "PLANNER_RESPONSE"@ {
        StepKind::PlannerResponse
    } else if result_types().contains(step_type) {
        StepKind::ToolResult
    } else if step_type == "CHECKPOINT"@ {
        StepKind::Checkpoint
    } else if ignored_types().contains(step_type) {
        StepKind::Ignored
    } else {
        StepKind::Unknown
    }
}

fn is_one_of(text: &str, list: &Vec<&str>) -> (r: bool)
    ensures
        r == list.deep_view().contains(text@),
{
    let mut i: usize = 0;
    while i < list.len()
        invariant
            i <= list@.len(),
            forall|j: int| 0 <= j < i ==> list.deep_view()[j] != text@,
        decreases list@.len() - i,
    {
        if same_text(text, list[i]) {
            assert(list.deep_view()[i as int] == text@);
            return true;
        }
        i = i + 1;
    }
    false
}

/// What a step of the given type means.
pub fn step_kind(step_type: &str) -> (r: StepKind)
    ensures
        r == kind_of_step(step_type@),
{
    if same_text(step_type, "USER_INPUT") {
        return StepKind::UserInput;
    }
    if same_text(step_type, "PLANNER_RESPONSE") {
        return StepKind::PlannerResponse;
    }
    let results: Vec<&str> = vec![
        "VIEW_FILE",
        "RUN_COMMAND",
        "GREP_SEARCH",
        "LIST_DIRECTORY",
        "CODE_ACTION",
        "BROWSER_SUBAGENT",
        "SEARCH_WEB",
        "READ_URL_CONTENT",
        "ASK_QUESTION",
        "GENERIC",
        "ERROR_MESSAGE",
    ];
    assert(results.deep_view() =~= result_types());
    if is_one_of(step_type, &results) {
        return StepKind::ToolResult;
    }
    if same_text(step_type, "CHECKPOINT") {
        return StepKind::Checkpoint;
    }
    let ignored: Vec<&str> = vec!["CONVERSATION_HISTORY", "KNOWLEDGE_ARTIFACTS", "SYSTEM_MESSAGE"];
    assert(ignored.deep_view() =~= ignored_types());
    if is_one_of(step_type, &ignored) {
        StepKind::Ignored
    } else {
        StepKind::Unknown
    }
}

} // verus!
