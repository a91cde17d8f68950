//! What each line of a transcript does to the conversation, told from the JSON of
//! the line: requests, answers with their thinking and calls, reports of tools and
//! summaries.

use crate::conventions::Conventions;
use crate::json::Json;
use crate::models::{MessageKind, MessageModel, Role, ToolCallModel};
use crate::pending::PendingModel;
use crate::request;
use crate::row;
use crate::row::StepKind;
use crate::text;
use crate::tool_args;
use crate::transcript;
use crate::transcript::ReaderModel;
use vstd::prelude::*;

verus! {

/// Whether a line holds a JSON object with these members.
pub open spec fn is_step(line: Seq<char>, members: Map<Seq<char>, Json>) -> bool {
    &&& text::trimmed(line).len() > 0
    &&& crate::json::parsed_json(line) == Some(Json::Object(members))
}

/// The text of a member, empty where it is missing or no string.
pub open spec fn text_in(members: Map<Seq<char>, Json>, key: Seq<char>) -> Seq<char> {
    match members.get(key) {
        Some(Json::Str(s)) => s,
        _ => Seq::empty(),
    }
}

/// The integer of a member, zero where it is missing or none.
pub open spec fn number_in(members: Map<Seq<char>, Json>, key: Seq<char>) -> i64 {
    match members.get(key) {
        Some(Json::Number(_, Some(n))) => n,
        _ => 0,
    }
}

/// The items of a member, none where it is missing or no array.
pub open spec fn items_in(members: Map<Seq<char>, Json>, key: Seq<char>) -> Seq<Json> {
    match members.get(key) {
        Some(Json::Array(items)) => items,
        _ => Seq::empty(),
    }
}

/// The member of a value that is an object.
pub open spec fn member_of(value: Json, key: Seq<char>) -> Option<Json> {
    match value {
        Json::Object(members) => members.get(key),
        _ => None,
    }
}

/// The time of a step.
pub open spec fn time_in<C: Conventions>(rules: &C, members: Map<Seq<char>, Json>) -> i64 {
    rules.iso_time(text_in(members, "created_at"@))
}

/// The time that a message of a step shows.
pub open spec fn stamp(ts: i64) -> Option<i64> {
    if ts > 0 {
        Some(ts)
    } else {
        None
    }
}

/// The name of a call, as its item gives it.
pub open spec fn call_name(item: Json) -> Seq<char> {
    match member_of(item, "name"@) {
        Some(Json::Str(name)) => name,
        _ => "tool"@,
    }
}

/// The arguments of a call, as its item gives them.
pub open spec fn call_args(item: Json) -> Option<tool_args::ToolArgsModel> {
    match member_of(item, "args"@) {
        Some(args) => Some(tool_args::args_of(args)),
        None => None,
    }
}

/// Whether there is nothing to write out.
pub open spec fn nothing_gathered(pending: PendingModel) -> bool {
    pending.content.len() == 0 && pending.thinking is None && pending.tool_calls.len() == 0
}

/// The messages once what has been gathered is written out: one message of the
/// assistant more, with the whole of it, or none where there is nothing.
pub open spec fn written_out<C: Conventions>(rules: &C, s: ReaderModel) -> Seq<MessageModel> {
    if nothing_gathered(s.pending) {
        s.messages
    } else {
        s.messages.push(
            MessageModel {
                seq: 0,
                role: Role::Assistant,
                kind: MessageKind::Text,
                text: rules.clipped(s.pending.content, rules.msg_limit()).0,
                truncated: rules.clipped(s.pending.content, rules.msg_limit()).1,
                tool_calls: s.pending.tool_calls,
                thinking: match s.pending.thinking {
                    Some(t) => Some(rules.clipped(t, rules.tool_limit()).0),
                    None => None,
                },
                timestamp: s.pending.timestamp,
                model: s.pending.model,
                images: Seq::empty(),
            },
        )
    }
}

/// Whether nothing is left of what had been gathered, or nothing had been.
pub open spec fn starts_anew(before: PendingModel, after: PendingModel) -> bool {
    if nothing_gathered(before) {
        after == before
    } else {
        &&& after.content.len() == 0
        &&& after.thinking is None
        &&& after.tool_calls.len() == 0
        &&& after.timestamp is None
        &&& after.model is None
    }
}

/// A message of the user or of the system.
pub open spec fn plain_message<C: Conventions>(
    rules: &C,
    role: Role,
    kind: MessageKind,
    said: Seq<char>,
    ts: i64,
    model: Option<Seq<char>>,
) -> MessageModel {
    MessageModel {
        seq: 0,
        role,
        kind,
        text: rules.clipped(said, rules.msg_limit()).0,
        truncated: rules.clipped(said, rules.msg_limit()).1,
        tool_calls: Seq::empty(),
        thinking: None,
        timestamp: stamp(ts),
        model,
        images: Seq::empty(),
    }
}

/// Whether the times of the reader are those after a step at the given time: the
/// first positive time stays, and the last one is the latest that was read.
pub open spec fn times_follow(before: ReaderModel, after: ReaderModel, ts: i64) -> bool {
    &&& after.first_ts == if before.first_ts == 0 && ts > 0 {
        ts
    } else {
        before.first_ts
    }
    &&& after.last_ts == if ts > 0 {
        ts
    } else {
        before.last_ts
    }
}

/// A text with more behind it, a blank line between them where there is something
/// on both sides.
pub open spec fn appended(first: Seq<char>, more: Seq<char>) -> Seq<char> {
    if more.len() == 0 {
        first
    } else if first.len() == 0 {
        more
    } else {
        first + "\n\n"@ + more
    }
}

/// What each type of a step means: eleven types report on a tool, three say nothing
/// to a reader, and what is none of the named types is unknown.
pub proof fn law_step_types(t: Seq<char>)
    ensures
        t == "USER_INPUT"@ <==> row::kind_of_step(t) == StepKind::UserInput,
        t == "PLANNER_RESPONSE"@ <==> row::kind_of_step(t) == StepKind::PlannerResponse,
        t == "CHECKPOINT"@ <==> row::kind_of_step(t) == StepKind::Checkpoint,
        is_report_type(t) <==> row::kind_of_step(t) == StepKind::ToolResult,
        is_idle_type(t) <==> row::kind_of_step(t) == StepKind::Ignored,
        !is_known_type(t) <==> row::kind_of_step(t) == StepKind::Unknown,
{
    lemma_report_types(t);
    lemma_idle_types(t);
    lemma_lone_types(t);
}

/// Whether a type is that of a report on a tool.
pub open spec fn is_report_type(t: Seq<char>) -> bool {
    ||| t == "VIEW_FILE"@
    ||| t == "RUN_COMMAND"@
    ||| t == "GREP_SEARCH"@
    ||| t == "LIST_DIRECTORY"@
    ||| t == "CODE_ACTION"@
    ||| t == "BROWSER_SUBAGENT"@
    ||| t == "SEARCH_WEB"@
    ||| t == "READ_URL_CONTENT"@
    ||| t == "ASK_QUESTION"@
    ||| t == "GENERIC"@
    ||| t == "ERROR_MESSAGE"@
}

/// Whether a type is that of a step that says nothing to a reader.
pub open spec fn is_idle_type(t: Seq<char>) -> bool {
    t == "CONVERSATION_HISTORY"@ || t == "KNOWLEDGE_ARTIFACTS"@ || t == "SYSTEM_MESSAGE"@
}

/// Whether a type is one that is known.
pub open spec fn is_known_type(t: Seq<char>) -> bool {
    t == "USER_INPUT"@ || t == "PLANNER_RESPONSE"@ || t == "CHECKPOINT"@ || is_report_type(t)
        || is_idle_type(t)
}

proof fn lemma_report_types(t: Seq<char>)
    ensures
        row::result_types().contains(t) <==> is_report_type(t),
{
    let all = row::result_types();
    if all.contains(t) {
        let i = choose|i: int| 0 <= i < all.len() && all[i] == t;
        assert(i == 0 || i == 1 || i == 2 || i == 3 || i == 4 || i == 5 || i == 6 || i == 7 || i
            == 8 || i == 9 || i == 10);
    }
    if is_report_type(t) {
        assert(all[0] == "VIEW_FILE"@);
        assert(all[1] == "RUN_COMMAND"@);
        assert(all[2] == "GREP_SEARCH"@);
        assert(all[3] == "LIST_DIRECTORY"@);
        assert(all[4] == "CODE_ACTION"@);
        assert(all[5] == "BROWSER_SUBAGENT"@);
        assert(all[6] == "SEARCH_WEB"@);
        assert(all[7] == "READ_URL_CONTENT"@);
        assert(all[8] == "ASK_QUESTION"@);
        assert(all[9] == "GENERIC"@);
        assert(all[10] == "ERROR_MESSAGE"@);
    }
}

proof fn lemma_idle_types(t: Seq<char>)
    ensures
        row::ignored_types().contains(t) <==> is_idle_type(t),
{
    let all = row::ignored_types();
    if all.contains(t) {
        let i = choose|i: int| 0 <= i < all.len() && all[i] == t;
        assert(i == 0 || i == 1 || i == 2);
    }
    if is_idle_type(t) {
        assert(all[0] == "CONVERSATION_HISTORY"@);
        assert(all[1] == "KNOWLEDGE_ARTIFACTS"@);
        assert(all[2] == "SYSTEM_MESSAGE"@);
    }
}

/// No type is of two sorts.
pub proof fn lemma_lone_types(t: Seq<char>)
    ensures
        t == "USER_INPUT"@ ==> t != "PLANNER_RESPONSE"@ && t != "CHECKPOINT"@ && !is_report_type(t)
            && !is_idle_type(t),
        t == "PLANNER_RESPONSE"@ ==> t != "CHECKPOINT"@ && !is_report_type(t) && !is_idle_type(t),
        t == "CHECKPOINT"@ ==> !is_report_type(t) && !is_idle_type(t),
        is_report_type(t) ==> !is_idle_type(t),
{
    reveal_strlit("USER_INPUT");
    reveal_strlit("PLANNER_RESPONSE");
    reveal_strlit("CHECKPOINT");
    reveal_strlit("CONVERSATION_HISTORY");
    reveal_strlit("KNOWLEDGE_ARTIFACTS");
    reveal_strlit("SYSTEM_MESSAGE");
    reveal_strlit("VIEW_FILE");
    reveal_strlit("RUN_COMMAND");
    reveal_strlit("GREP_SEARCH");
    reveal_strlit("LIST_DIRECTORY");
    reveal_strlit("CODE_ACTION");
    reveal_strlit("BROWSER_SUBAGENT");
    reveal_strlit("SEARCH_WEB");
    reveal_strlit("READ_URL_CONTENT");
    reveal_strlit("ASK_QUESTION");
    reveal_strlit("GENERIC");
    reveal_strlit("ERROR_MESSAGE");
    if t == "USER_INPUT"@ {
        assert(t[0] == 'U');
    }
    if t == "PLANNER_RESPONSE"@ {
        assert(t[0] == 'P');
    }
    if t == "CHECKPOINT"@ {
        assert(t[0] == 'C' && t.len() == 10);
    }
    if is_idle_type(t) {
        assert((t[0] == 'C' && t.len() == 20) || t[0] == 'K' || (t[0] == 'S' && t.len() == 14));
    }
    if is_report_type(t) {
        assert(t[0] == 'V' || t[0] == 'R' || t[0] == 'G' || t[0] == 'L' || (t[0] == 'C' && t.len()
            == 11) || t[0] == 'B' || (t[0] == 'S' && t.len() == 10) || t[0] == 'A' || t[0] == 'E');
    }
}

/// A line that could not be had, or that is neither blank nor JSON, or that is JSON
/// and no step of a known type, is counted as unknown. It leaves everything else
/// as it is, but for the times, which a step of an unknown type counts for too.
pub proof fn law_an_unknown_line_is_counted<C: Conventions>(
    rules: &C,
    s: ReaderModel,
    line: Seq<char>,
    members: Map<Seq<char>, Json>,
)
    ensures
        transcript::after_line(rules, s, None) == (ReaderModel {
            unknown_lines: s.unknown_lines + 1,
            ..s
        }),
        text::trimmed(line).len() > 0 && crate::json::parsed_json(line) is None
            ==> transcript::after_line(rules, s, Some(line)) == (ReaderModel {
            unknown_lines: s.unknown_lines + 1,
            ..s
        }),
        is_step(line, members) && !is_known_type(text_in(members, "type"@)) ==> ({
            let t = transcript::after_line(rules, s, Some(line));
            &&& t == (ReaderModel {
                unknown_lines: s.unknown_lines + 1,
                first_ts: t.first_ts,
                last_ts: t.last_ts,
                ..s
            })
            &&& times_follow(s, t, time_in(rules, members))
        }),
        text::trimmed(line).len() == 0 ==> transcript::after_line(rules, s, Some(line)) == s,
{
    law_step_types(text_in(members, "type"@));
}

/// JSON that is no object is an unknown line.
pub proof fn law_json_that_is_no_object_is_unknown<C: Conventions>(
    rules: &C,
    s: ReaderModel,
    line: Seq<char>,
    value: Json,
)
    requires
        text::trimmed(line).len() > 0,
        crate::json::parsed_json(line) == Some(value),
        !(value is Object),
    ensures
        transcript::after_line(rules, s, Some(line)) == (ReaderModel {
            unknown_lines: s.unknown_lines + 1,
            ..s
        }),
{
    rules.no_time_is_not_positive();
    law_step_types(Seq::empty());
    lemma_no_type_is_empty();
}

pub proof fn lemma_no_type_is_empty()
    ensures
        !is_known_type(Seq::empty()),
{
    reveal_strlit("USER_INPUT");
    reveal_strlit("PLANNER_RESPONSE");
    reveal_strlit("CHECKPOINT");
    assert("USER_INPUT"@.len() == 10);
    assert("PLANNER_RESPONSE"@.len() == 16);
    assert("CHECKPOINT"@.len() == 10);
    reveal_strlit("CONVERSATION_HISTORY");
    reveal_strlit("KNOWLEDGE_ARTIFACTS");
    reveal_strlit("SYSTEM_MESSAGE");
    assert("CONVERSATION_HISTORY"@.len() == 20);
    assert("KNOWLEDGE_ARTIFACTS"@.len() == 19);
    assert("SYSTEM_MESSAGE"@.len() == 14);
    reveal_strlit("VIEW_FILE");
    reveal_strlit("RUN_COMMAND");
    reveal_strlit("GREP_SEARCH");
    reveal_strlit("LIST_DIRECTORY");
    assert("VIEW_FILE"@.len() == 9);
    assert("RUN_COMMAND"@.len() == 11);
    assert("GREP_SEARCH"@.len() == 11);
    assert("LIST_DIRECTORY"@.len() == 14);
    reveal_strlit("CODE_ACTION");
    reveal_strlit("BROWSER_SUBAGENT");
    reveal_strlit("SEARCH_WEB");
    reveal_strlit("READ_URL_CONTENT");
    assert("CODE_ACTION"@.len() == 11);
    assert("BROWSER_SUBAGENT"@.len() == 16);
    assert("SEARCH_WEB"@.len() == 10);
    assert("READ_URL_CONTENT"@.len() == 16);
    reveal_strlit("ASK_QUESTION");
    reveal_strlit("GENERIC");
    reveal_strlit("ERROR_MESSAGE");
    assert("ASK_QUESTION"@.len() == 12);
    assert("GENERIC"@.len() == 7);
    assert("ERROR_MESSAGE"@.len() == 13);
}

/// A step that says nothing to a reader counts for the times alone.
pub proof fn law_an_idle_step_counts_for_the_times<C: Conventions>(
    rules: &C,
    s: ReaderModel,
    line: Seq<char>,
    members: Map<Seq<char>, Json>,
)
    requires
        is_step(line, members),
        is_idle_type(text_in(members, "type"@)),
    ensures
        ({
            let t = transcript::after_line(rules, s, Some(line));
            &&& t == (ReaderModel { first_ts: t.first_ts, last_ts: t.last_ts, ..s })
            &&& times_follow(s, t, time_in(rules, members))
        }),
{
    law_step_types(text_in(members, "type"@));
}

/// A request of the user is the next message behind the answer gathered so far. It
/// is shown under the model that it names, else under the one in force, which from
/// then on is that of the session. The first request with a title gives the
/// session its title, and the first that names a document gives that.
pub proof fn law_a_request_is_a_message<C: Conventions>(
    rules: &C,
    s: ReaderModel,
    line: Seq<char>,
    members: Map<Seq<char>, Json>,
)
    requires
        is_step(line, members),
        text_in(members, "type"@) == "USER_INPUT"@,
    ensures
        ({
            let t = transcript::after_line(rules, s, Some(line));
            let content = text_in(members, "content"@);
            let asked = request::request_text(content);
            let ts = time_in(rules, members);
            &&& t.messages == written_out(rules, s).push(
                plain_message(rules, Role::User, rules.kind_of(asked), asked, ts, t.model),
            )
            &&& request::chosen_model(content) is Some ==> t.model == request::chosen_model(content)
            &&& request::chosen_model(content) is None ==> t.model == s.model
            &&& s.title is Some ==> t.title == s.title
            &&& s.title is None && asked.len() > 0 && rules.title_of(asked).len() > 0 ==> t.title
                == Some(rules.title_of(asked))
            &&& s.title is None && (asked.len() == 0 || rules.title_of(asked).len() == 0)
                ==> t.title is None
            &&& s.doc_path is Some ==> t.doc_path == s.doc_path
            &&& s.doc_path is None ==> t.doc_path == request::document_path(content)
            &&& starts_anew(s.pending, t.pending)
            &&& t.tool_cwd == s.tool_cwd
            &&& t.unknown_lines == s.unknown_lines
            &&& times_follow(s, t, ts)
        }),
{
    law_step_types(text_in(members, "type"@));
}

/// What the model says, thinks and calls is added to the answer gathered so far:
/// with n items among its calls the answer has exactly n calls more, the earlier
/// ones as they were, and each new one has the name and the arguments of its item,
/// an identifier of the number of the step and its place in it, and no answer. The
/// answer keeps the first time it was given and the model it began under.
pub proof fn law_an_answer_is_gathered<C: Conventions>(
    rules: &C,
    s: ReaderModel,
    line: Seq<char>,
    members: Map<Seq<char>, Json>,
)
    requires
        is_step(line, members),
        text_in(members, "type"@) == "PLANNER_RESPONSE"@,
    ensures
        ({
            let t = transcript::after_line(rules, s, Some(line));
            let items = items_in(members, "tool_calls"@);
            let step = number_in(members, "step_index"@);
            let m = s.pending.tool_calls.len();
            let ts = time_in(rules, members);
            let thought = text::trimmed(text_in(members, "thinking"@));
            &&& t.pending.tool_calls.len() == m + items.len()
            &&& forall|j: int|
                #![trigger t.pending.tool_calls[j]]
                0 <= j < m ==> t.pending.tool_calls[j] == s.pending.tool_calls[j]
            &&& forall|k: int|
                #![trigger items[k]]
                0 <= k < items.len() ==> t.pending.tool_calls[m + k] == (ToolCallModel {
                    id: "tc-"@ + text::decimal(step as int) + "-"@ + text::decimal(k),
                    name: call_name(items[k]),
                    input_preview: tool_args::args_parts(rules, call_args(items[k])).0,
                    input: tool_args::args_parts(rules, call_args(items[k])).1,
                    output: None,
                    is_error: false,
                    sidechain_ref: None,
                })
            &&& t.pending.content == appended(
                s.pending.content,
                text::trimmed(text_in(members, "content"@)),
            )
            &&& thought.len() == 0 ==> t.pending.thinking == s.pending.thinking
            &&& thought.len() > 0 && s.pending.thinking is None ==> t.pending.thinking == Some(
                thought,
            )
            &&& thought.len() > 0 && s.pending.thinking is Some ==> t.pending.thinking == Some(
                s.pending.thinking->0 + "\n\n"@ + thought,
            )
            &&& s.pending.timestamp is Some ==> t.pending.timestamp == s.pending.timestamp
            &&& s.pending.timestamp is None ==> t.pending.timestamp == stamp(ts)
            &&& s.pending.model is Some ==> t.pending.model == s.pending.model
            &&& s.pending.model is None ==> t.pending.model == s.model
            &&& t.messages == s.messages
            &&& t.model == s.model
            &&& t.title == s.title
            &&& t.doc_path == s.doc_path
            &&& t.unknown_lines == s.unknown_lines
            &&& s.tool_cwd is Some ==> t.tool_cwd == s.tool_cwd
            &&& s.tool_cwd is None ==> is_first_told(
                items.map_values(
                    |item: Json| tool_args::args_parts(rules, call_args(item)).2,
                ),
                t.tool_cwd,
            )
            &&& times_follow(s, t, ts)
        }),
{
    let t = transcript::after_line(rules, s, Some(line));
    let items = items_in(members, "tool_calls"@);
    let row = row::row_of(Json::Object(members));
    let calls = transcript::calls_in(row);
    law_step_types(text_in(members, "type"@));
    assert(calls =~= items.map_values(|item: Json| row::call_of(item)));
    assert forall|k: int| #![trigger items[k]] 0 <= k < items.len() implies calls[k]
        == (row::ToolCallRowModel { name: call_name(items[k]), args: call_args(items[k]) }) by {
        assert(calls[k] == row::call_of(items[k]));
    }
    lemma_cwd_of_calls(rules, s.tool_cwd, calls);
    let told = items.map_values(|item: Json| tool_args::args_parts(rules, call_args(item)).2);
    assert(told =~= calls.map_values(
        |call: row::ToolCallRowModel| tool_args::args_parts(rules, call.args).2,
    )) by {
        assert forall|k: int| 0 <= k < items.len() implies #[trigger] told[k]
            == tool_args::args_parts(rules, calls[k].args).2 by {
            assert(items[k] == items[k]);
        }
    }
    assert(t.pending.content =~= appended(
        s.pending.content,
        text::trimmed(text_in(members, "content"@)),
    ));
}

/// Whether a value is the first that is there in a list, or none where none is.
pub open spec fn is_first_told(list: Seq<Option<Seq<char>>>, found: Option<Seq<char>>) -> bool {
    match found {
        Some(_) => exists|i: int|
            #![trigger list[i]]
            0 <= i < list.len() && list[i] == found && forall|j: int|
                #![trigger list[j]]
                0 <= j < i ==> list[j] is None,
        None => forall|i: int| #![trigger list[i]] 0 <= i < list.len() ==> list[i] is None,
    }
}

proof fn lemma_cwd_of_calls<C: Conventions>(
    rules: &C,
    known: Option<Seq<char>>,
    calls: Seq<row::ToolCallRowModel>,
)
    ensures
        known is Some ==> transcript::cwd_after(rules, known, calls) == known,
        known is None ==> is_first_told(
            calls.map_values(
                |call: row::ToolCallRowModel| tool_args::args_parts(rules, call.args).2,
            ),
            transcript::cwd_after(rules, known, calls),
        ),
    decreases calls.len(),
{
    if calls.len() > 0 {
        let rest = calls.drop_last();
        lemma_cwd_of_calls(rules, known, rest);
        let list = calls.map_values(
            |call: row::ToolCallRowModel| tool_args::args_parts(rules, call.args).2,
        );
        let less = rest.map_values(
            |call: row::ToolCallRowModel| tool_args::args_parts(rules, call.args).2,
        );
        assert forall|i: int| #![trigger list[i]] 0 <= i < rest.len() implies list[i]
            == less[i] by {}
        if known is None {
            let before = transcript::cwd_after(rules, known, rest);
            let found = transcript::cwd_after(rules, known, calls);
            let n = rest.len() as int;
            assert(list[n] == tool_args::args_parts(rules, calls.last().args).2);
            match before {
                Some(_) => {
                    let i = choose|i: int|
                        #![trigger less[i]]
                        0 <= i < less.len() && less[i] == before && forall|j: int|
                            #![trigger less[j]]
                            0 <= j < i ==> less[j] is None;
                    assert(list[i] == found);
                    assert forall|j: int| #![trigger list[j]] 0 <= j < i implies list[j] is None by {
                        assert(less[j] is None);
                    }
                },
                None => {
                    assert forall|j: int| #![trigger list[j]] 0 <= j < n implies list[j] is None by {
                        assert(less[j] is None);
                    }
                },
            }
        }
    }
}

/// The report of a tool answers the latest call that has no answer, and changes
/// nothing else: its text becomes the output, and whether it is an error is told by
/// its status or its type. Where every call has its answer, an error that says
/// anything becomes a message of the system, and any other report is passed over.
pub proof fn law_a_report_is_an_answer<C: Conventions>(
    rules: &C,
    s: ReaderModel,
    line: Seq<char>,
    members: Map<Seq<char>, Json>,
)
    requires
        is_step(line, members),
        is_report_type(text_in(members, "type"@)),
    ensures
        ({
            let t = transcript::after_line(rules, s, Some(line));
            let said = text::trimmed(text_in(members, "content"@));
            let failed = text_in(members, "status"@) == "ERROR"@ || text_in(members, "type"@)
                == "ERROR_MESSAGE"@;
            let ts = time_in(rules, members);
            let calls = s.pending.tool_calls;
            let all_answered = forall|i: int|
                #![trigger calls[i]]
                0 <= i < calls.len() ==> calls[i].output is Some;
            &&& times_follow(s, t, ts)
            &&& t == (ReaderModel {
                messages: t.messages,
                pending: PendingModel { tool_calls: t.pending.tool_calls, ..s.pending },
                first_ts: t.first_ts,
                last_ts: t.last_ts,
                ..s
            })
            &&& forall|i: int|
                #![trigger calls[i]]
                0 <= i < calls.len() && calls[i].output is None && (forall|j: int|
                    #![trigger calls[j]]
                    i < j < calls.len() ==> calls[j].output is Some) ==> t.pending.tool_calls
                    == calls.update(
                    i,
                    ToolCallModel {
                        output: Some(rules.clipped(said, rules.tool_limit()).0),
                        is_error: failed,
                        ..calls[i]
                    },
                )
            &&& !all_answered ==> t.messages == s.messages
            &&& all_answered ==> t.pending == s.pending
            &&& all_answered && failed && said.len() > 0 ==> t.messages == s.messages.push(
                plain_message(rules, Role::System, MessageKind::Text, said, ts, None),
            )
            &&& all_answered && !(failed && said.len() > 0) ==> t.messages == s.messages
        }),
{
    law_step_types(text_in(members, "type"@));
    crate::laws::law_last_open_is_the_last(s.pending.tool_calls);
    let calls = s.pending.tool_calls;
    match transcript::last_open(calls) {
        Some(k) => {
            assert forall|i: int|
                #![trigger calls[i]]
                0 <= i < calls.len() && calls[i].output is None && (forall|j: int|
                    #![trigger calls[j]]
                    i < j < calls.len() ==> calls[j].output is Some) implies i == k by {
                assert(calls[k].output is None);
            }
        },
        None => {},
    }
}

/// A checkpoint writes out the answer gathered so far, and then its summary where
/// it holds one.
pub proof fn law_a_checkpoint_is_a_summary<C: Conventions>(
    rules: &C,
    s: ReaderModel,
    line: Seq<char>,
    members: Map<Seq<char>, Json>,
)
    requires
        is_step(line, members),
        text_in(members, "type"@) == "CHECKPOINT"@,
    ensures
        ({
            let t = transcript::after_line(rules, s, Some(line));
            let said = text::trimmed(text_in(members, "content"@));
            let ts = time_in(rules, members);
            &&& said.len() == 0 ==> t.messages == written_out(rules, s)
            &&& said.len() > 0 ==> t.messages == written_out(rules, s).push(
                plain_message(rules, Role::System, MessageKind::CompactSummary, said, ts, None),
            )
            &&& starts_anew(s.pending, t.pending)
            &&& t.model == s.model
            &&& t.title == s.title
            &&& t.doc_path == s.doc_path
            &&& t.tool_cwd == s.tool_cwd
            &&& t.unknown_lines == s.unknown_lines
            &&& times_follow(s, t, ts)
        }),
{
    law_step_types(text_in(members, "type"@));
}

/// A transcript begins with nothing, and ends with the answer gathered so far
/// written out and the messages numbered. The directory of a tool tells its project,
/// else the document.
pub proof fn law_a_transcript_begins_and_ends<C: Conventions>(
    rules: &C,
    lines: Seq<Option<Seq<char>>>,
)
    ensures
        ({
            let s = transcript::after_lines(rules, lines);
            let all = written_out(rules, s);
            let parsed = transcript::transcript_of(rules, lines);
            &&& parsed.messages.len() == all.len()
            &&& forall|i: int|
                #![trigger parsed.messages[i]]
                0 <= i < all.len() ==> parsed.messages[i] == (MessageModel { seq: i, ..all[i] })
            &&& parsed.title == s.title
            &&& parsed.model == s.model
            &&& s.tool_cwd is Some ==> parsed.project_path == s.tool_cwd
            &&& s.tool_cwd is None ==> parsed.project_path == s.doc_path
            &&& parsed.created_at == s.first_ts
            &&& parsed.updated_at == s.last_ts
            &&& parsed.unknown_lines == s.unknown_lines
        }),
        lines.len() > 0 ==> transcript::after_lines(rules, lines) == transcript::after_line(
            rules,
            transcript::after_lines(rules, lines.drop_last()),
            lines.last(),
        ),
        lines.len() == 0 ==> ({
            let s = transcript::after_lines(rules, lines);
            &&& s.messages.len() == 0
            &&& s.unknown_lines == 0
            &&& s.first_ts == 0
            &&& s.last_ts == 0
            &&& s.title is None
            &&& s.doc_path is None
            &&& s.tool_cwd is None
            &&& s.model is None
            &&& nothing_gathered(s.pending)
            &&& s.pending.timestamp is None
            &&& s.pending.model is None
        }),
{
}

} // verus!
