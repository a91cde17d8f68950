//! A transcript of the IDE: what its lines, one step each, make of a
//! conversation.

use crate::conventions::Conventions;
use crate::json;
use crate::models;
use crate::models::{
    assign_seq, MessageKind, MessageModel, Role, ToolCallModel, ToolCallView, TranscriptMessage,
};
use crate::pending;
use crate::pending::{flush_pending_assistant, PendingAssistant, PendingModel};
use crate::request;
use crate::request::extract_user_request;
use crate::row;
use crate::row::{
    read_row, step_kind, Row, RowModel, StepKind, ToolCallRow, ToolCallRowModel,
};
use crate::text;
use crate::text::{is_blank, push_count, push_decimal, same_text, trim_text};
use crate::tool_args;
use crate::tool_args::parse_tool_args;
use vstd::prelude::*;

verus! {

/// What has been read of a transcript.
pub struct IdeReader {
    pub messages: Vec<TranscriptMessage>,
    pub unknown_lines: u32,
    pub first_ts: i64,
    pub last_ts: i64,
    pub title: Option<String>,
    pub doc_path: Option<String>,
    pub tool_cwd: Option<String>,
    pub model: Option<String>,
    pub pending: PendingAssistant,
}

/// The model of what has been read of a transcript.
#[verifier::ext_equal]
pub struct ReaderModel {
    pub messages: Seq<MessageModel>,
    pub unknown_lines: int,
    pub first_ts: i64,
    pub last_ts: i64,
    pub title: Option<Seq<char>>,
    pub doc_path: Option<Seq<char>>,
    pub tool_cwd: Option<Seq<char>>,
    pub model: Option<Seq<char>>,
    pub pending: PendingModel,
}

impl DeepView for IdeReader {
    type V = ReaderModel;

    open spec fn deep_view(&self) -> ReaderModel {
        ReaderModel {
            messages: self.messages.deep_view(),
            unknown_lines: self.unknown_lines as int,
            first_ts: self.first_ts,
            last_ts: self.last_ts,
            title: self.title.deep_view(),
            doc_path: self.doc_path.deep_view(),
            tool_cwd: self.tool_cwd.deep_view(),
            model: self.model.deep_view(),
            pending: self.pending.deep_view(),
        }
    }
}

/// What a whole transcript says.
pub struct AntigravityIdeParse {
    pub messages: Vec<TranscriptMessage>,
    pub title: Option<String>,
    pub project_path: Option<String>,
    pub model: Option<String>,
    pub created_at: i64,
    pub updated_at: i64,
    pub unknown_lines: u32,
}

/// The model of what a whole transcript says.
#[verifier::ext_equal]
pub struct IdeParseModel {
    pub messages: Seq<MessageModel>,
    pub title: Option<Seq<char>>,
    pub project_path: Option<Seq<char>>,
    pub model: Option<Seq<char>>,
    pub created_at: i64,
    pub updated_at: i64,
    pub unknown_lines: int,
}

impl DeepView for AntigravityIdeParse {
    type V = IdeParseModel;

    open spec fn deep_view(&self) -> IdeParseModel {
        IdeParseModel {
            messages: self.messages.deep_view(),
            title: self.title.deep_view(),
            project_path: self.project_path.deep_view(),
            model: self.model.deep_view(),
            created_at: self.created_at,
            updated_at: self.updated_at,
            unknown_lines: self.unknown_lines as int,
        }
    }
}

impl ReaderModel {
    /// Nothing read.
    pub open spec fn start() -> ReaderModel {
        ReaderModel {
            messages: Seq::empty(),
            unknown_lines: 0,
            first_ts: 0,
            last_ts: 0,
            title: None,
            doc_path: None,
            tool_cwd: None,
            model: None,
            pending: PendingModel::nothing(),
        }
    }

    /// One more line that says nothing known.
    pub open spec fn with_unknown_line(self) -> ReaderModel {
        ReaderModel { unknown_lines: self.unknown_lines + 1, ..self }
    }

    /// A step at the given time: the first such time is kept, and the last.
    /// Only positive times count.
    pub open spec fn at_time(self, ts: i64) -> ReaderModel {
        if ts > 0 {
            ReaderModel {
                first_ts: if self.first_ts == 0 {
                    ts
                } else {
                    self.first_ts
                },
                last_ts: ts,
                ..self
            }
        } else {
            self
        }
    }

    /// The gathered answer written out.
    pub open spec fn flushed<C: Conventions>(self, rules: &C) -> ReaderModel {
        ReaderModel {
            messages: pending::messages_after_flush(rules, self.pending, self.messages),
            pending: pending::pending_after_flush(self.pending),
            ..self
        }
    }
}

/// A time as a message shows it.
pub open spec fn shown_time(ts: i64) -> Option<i64> {
    if ts > 0 {
        Some(ts)
    } else {
        None
    }
}

/// The first of two that is there.
pub open spec fn first_of<T>(a: Option<T>, b: Option<T>) -> Option<T> {
    match a {
        Some(x) => Some(x),
        None => b,
    }
}

/// A message of the user.
pub open spec fn user_message<C: Conventions>(
    rules: &C,
    request: Seq<char>,
    ts: i64,
    model: Option<Seq<char>>,
) -> MessageModel {
    MessageModel {
        seq: 0,
        role: Role::User,
        kind: rules.kind_of(request),
        text: rules.clipped(request, rules.msg_limit()).0,
        truncated: rules.clipped(request, rules.msg_limit()).1,
        tool_calls: Seq::empty(),
        thinking: None,
        timestamp: shown_time(ts),
        model,
        images: Seq::empty(),
    }
}

/// A message of the system.
pub open spec fn system_message<C: Conventions>(
    rules: &C,
    kind: MessageKind,
    said: Seq<char>,
    ts: i64,
) -> MessageModel {
    MessageModel {
        seq: 0,
        role: Role::System,
        kind,
        text: rules.clipped(said, rules.msg_limit()).0,
        truncated: rules.clipped(said, rules.msg_limit()).1,
        tool_calls: Seq::empty(),
        thinking: None,
        timestamp: shown_time(ts),
        model: None,
        images: Seq::empty(),
    }
}

/// The title after a request: the one there was, else the cleaned request where
/// there is anything left of it.
pub open spec fn title_after<C: Conventions>(
    rules: &C,
    title: Option<Seq<char>>,
    request: Seq<char>,
) -> Option<Seq<char>> {
    if title is None && request.len() > 0 && rules.title_of(request).len() > 0 {
        Some(rules.title_of(request))
    } else {
        title
    }
}

/// The user speaks: the answer so far is written out, then the request, under
/// the model that was chosen last.
pub open spec fn user_step<C: Conventions>(
    rules: &C,
    s: ReaderModel,
    row: RowModel,
    ts: i64,
) -> ReaderModel {
    let content = row::or_empty(row.content);
    let request = request::request_text(content);
    let flushed = s.flushed(rules);
    let model = first_of(request::chosen_model(content), s.model);
    ReaderModel {
        messages: flushed.messages.push(user_message(rules, request, ts, model)),
        title: title_after(rules, s.title, request),
        doc_path: first_of(s.doc_path, request::document_path(content)),
        model,
        ..flushed
    }
}

/// A text with another behind it, a blank line between them.
pub open spec fn joined(first: Seq<char>, second: Seq<char>) -> Seq<char> {
    first + "\n\n"@ + second
}

/// Thinking with more of it.
pub open spec fn more_thinking(
    thinking: Option<Seq<char>>,
    more: Option<Seq<char>>,
) -> Option<Seq<char>> {
    if text::trimmed(row::or_empty(more)).len() == 0 {
        thinking
    } else {
        match thinking {
            Some(t) => Some(joined(t, text::trimmed(row::or_empty(more)))),
            None => Some(text::trimmed(row::or_empty(more))),
        }
    }
}

/// A text with more of it.
pub open spec fn more_content(content: Seq<char>, more: Option<Seq<char>>) -> Seq<char> {
    if text::trimmed(row::or_empty(more)).len() == 0 {
        content
    } else if content.len() == 0 {
        text::trimmed(row::or_empty(more))
    } else {
        joined(content, text::trimmed(row::or_empty(more)))
    }
}

/// The identifier of a call: the number of its step, and its place there.
pub open spec fn call_id(step_index: i64, place: int) -> Seq<char> {
    "tc-"@ + text::decimal(step_index as int) + "-"@ + text::decimal(place)
}

/// A call that has not been answered.
pub open spec fn open_call<C: Conventions>(
    rules: &C,
    step_index: i64,
    place: int,
    call: ToolCallRowModel,
) -> ToolCallModel {
    let parts = tool_args::args_parts(rules, call.args);
    ToolCallModel {
        id: call_id(step_index, place),
        name: call.name,
        input_preview: parts.0,
        input: parts.1,
        output: None,
        is_error: false,
        sidechain_ref: None,
    }
}

/// The calls of a step, none of them answered.
pub open spec fn open_calls<C: Conventions>(
    rules: &C,
    step_index: i64,
    calls: Seq<ToolCallRowModel>,
) -> Seq<ToolCallModel> {
    calls.map(|i: int, call: ToolCallRowModel| open_call(rules, step_index, i, call))
}

/// The directory that a tool worked in: the one known, else the first that one
/// of the calls tells.
pub open spec fn cwd_after<C: Conventions>(
    rules: &C,
    known: Option<Seq<char>>,
    calls: Seq<ToolCallRowModel>,
) -> Option<Seq<char>>
    decreases calls.len(),
{
    if calls.len() == 0 {
        known
    } else {
        first_of(
            cwd_after(rules, known, calls.drop_last()),
            tool_args::args_parts(rules, calls.last().args).2,
        )
    }
}

/// The calls of a step; a step without any has none.
pub open spec fn calls_in(row: RowModel) -> Seq<ToolCallRowModel> {
    match row.tool_calls {
        Some(calls) => calls,
        None => Seq::empty(),
    }
}

/// The model answers: what it says, thinks and calls is added to the answer
/// gathered so far, which keeps the time and the model it began with.
pub open spec fn planner_step<C: Conventions>(
    rules: &C,
    s: ReaderModel,
    row: RowModel,
    ts: i64,
) -> ReaderModel {
    ReaderModel {
        pending: PendingModel {
            content: more_content(s.pending.content, row.content),
            thinking: more_thinking(s.pending.thinking, row.thinking),
            tool_calls: s.pending.tool_calls + open_calls(rules, row.step_index, calls_in(row)),
            timestamp: first_of(s.pending.timestamp, shown_time(ts)),
            model: first_of(s.pending.model, s.model),
        },
        tool_cwd: cwd_after(rules, s.tool_cwd, calls_in(row)),
        ..s
    }
}

/// The place of the last call that has not been answered.
pub open spec fn last_open(calls: Seq<ToolCallModel>) -> Option<int>
    decreases calls.len(),
{
    if calls.len() == 0 {
        None
    } else if calls.last().output is None {
        Some(calls.len() - 1)
    } else {
        last_open(calls.drop_last())
    }
}

/// Whether a step reports that something went wrong.
pub open spec fn is_failure(row: RowModel) -> bool {
    row.status == "ERROR"@ || row.step_type == "ERROR_MESSAGE"@
}

/// A tool has done its work: the last call that has not been answered is
/// answered. Where there is none, a failure becomes a message of its own.
pub open spec fn result_step<C: Conventions>(
    rules: &C,
    s: ReaderModel,
    row: RowModel,
    ts: i64,
) -> ReaderModel {
    let said = text::trimmed(row::or_empty(row.content));
    match last_open(s.pending.tool_calls) {
        Some(i) => ReaderModel {
            pending: PendingModel {
                tool_calls: s.pending.tool_calls.update(
                    i,
                    ToolCallModel {
                        output: Some(rules.clipped(said, rules.tool_limit()).0),
                        is_error: is_failure(row),
                        ..s.pending.tool_calls[i]
                    },
                ),
                ..s.pending
            },
            ..s
        },
        None => if is_failure(row) && said.len() > 0 {
            ReaderModel {
                messages: s.messages.push(system_message(rules, MessageKind::Text, said, ts)),
                ..s
            }
        } else {
            s
        },
    }
}

/// What was said so far is summed up: the answer so far is written out, then
/// the summary where there is one.
pub open spec fn checkpoint_step<C: Conventions>(
    rules: &C,
    s: ReaderModel,
    row: RowModel,
    ts: i64,
) -> ReaderModel {
    let said = text::trimmed(row::or_empty(row.content));
    let flushed = s.flushed(rules);
    if said.len() > 0 {
        ReaderModel {
            messages: flushed.messages.push(
                system_message(rules, MessageKind::CompactSummary, said, ts),
            ),
            ..flushed
        }
    } else {
        flushed
    }
}

/// What has been read once a step is read too.
pub open spec fn after_row<C: Conventions>(
    rules: &C,
    s: ReaderModel,
    row: RowModel,
) -> ReaderModel {
    let ts = rules.iso_time(row.created_at);
    let timed = s.at_time(ts);
    match row::kind_of_step(row.step_type) {
        StepKind::UserInput => user_step(rules, timed, row, ts),
        StepKind::PlannerResponse => planner_step(rules, timed, row, ts),
        StepKind::ToolResult => result_step(rules, timed, row, ts),
        StepKind::Checkpoint => checkpoint_step(rules, timed, row, ts),
        StepKind::Ignored => timed,
        StepKind::Unknown => timed.with_unknown_line(),
    }
}

/// What has been read once a line is read too. A line that could not be read
/// and one that is no JSON are unknown; a blank one does not count.
pub open spec fn after_line<C: Conventions>(
    rules: &C,
    s: ReaderModel,
    line: Option<Seq<char>>,
) -> ReaderModel {
    match line {
        None => s.with_unknown_line(),
        Some(line) => if text::trimmed(line).len() == 0 {
            s
        } else {
            match json::parsed_json(line) {
                Some(value) => after_row(rules, s, row::row_of(value)),
                None => s.with_unknown_line(),
            }
        },
    }
}

/// Whether a line says nothing known: one that could not be read, one that is
/// neither blank nor JSON, and a step of an unknown type.
pub open spec fn is_unknown_line(line: Option<Seq<char>>) -> bool {
    match line {
        None => true,
        Some(line) => if text::trimmed(line).len() == 0 {
            false
        } else {
            match json::parsed_json(line) {
                Some(value) => row::kind_of_step(row::row_of(value).step_type) is Unknown,
                None => true,
            }
        },
    }
}

/// How many of the lines say nothing known.
pub open spec fn unknown_count(lines: Seq<Option<Seq<char>>>) -> nat
    decreases lines.len(),
{
    if lines.len() == 0 {
        0
    } else if is_unknown_line(lines.last()) {
        unknown_count(lines.drop_last()) + 1
    } else {
        unknown_count(lines.drop_last())
    }
}

/// What has been read once all the lines are.
pub open spec fn after_lines<C: Conventions>(
    rules: &C,
    lines: Seq<Option<Seq<char>>>,
) -> ReaderModel
    decreases lines.len(),
{
    if lines.len() == 0 {
        ReaderModel::start()
    } else {
        after_line(rules, after_lines(rules, lines.drop_last()), lines.last())
    }
}

/// What a transcript says, from what was read of it: the answer so far is
/// written out, and the messages are numbered. A tool tells the project better
/// than an open document does.
pub open spec fn finished<C: Conventions>(rules: &C, s: ReaderModel) -> IdeParseModel {
    IdeParseModel {
        messages: models::numbered(s.flushed(rules).messages),
        title: s.title,
        project_path: first_of(s.tool_cwd, s.doc_path),
        model: s.model,
        created_at: s.first_ts,
        updated_at: s.last_ts,
        unknown_lines: s.unknown_lines,
    }
}

/// What the lines of a transcript say.
pub open spec fn transcript_of<C: Conventions>(
    rules: &C,
    lines: Seq<Option<Seq<char>>>,
) -> IdeParseModel {
    finished(rules, after_lines(rules, lines))
}

fn time_shown(ts: i64) -> (r: Option<i64>)
    ensures
        r == shown_time(ts),
{
    if ts > 0 {
        Some(ts)
    } else {
        None
    }
}

fn content_of(content: &Option<String>) -> (r: &str)
    ensures
        r@ == row::or_empty(content.deep_view()),
{
    match content {
        Some(s) => s.as_str(),
        None => {
            proof {
                reveal_strlit("");
                assert(""@ =~= Seq::<char>::empty());
            }
            ""
        },
    }
}

fn write_system_message<C: Conventions>(
    rules: &C,
    messages: &mut Vec<TranscriptMessage>,
    kind: MessageKind,
    said: &str,
    ts: i64,
)
    ensures
        final(messages).deep_view() == old(messages).deep_view().push(
            system_message(rules, kind, said@, ts),
        ),
{
    let ghost before = messages.deep_view();
    let (clipped, truncated) = rules.clip(said, rules.max_msg_text());
    let message = TranscriptMessage {
        seq: 0,
        role: Role::System,
        kind,
        text: clipped,
        truncated,
        tool_calls: Vec::new(),
        thinking: None,
        timestamp: time_shown(ts),
        model: None,
        images: Vec::new(),
    };
    assert(message.deep_view() =~= system_message(rules, kind, said@, ts));
    messages.push(message);
    assert(messages.deep_view() =~= before.push(message.deep_view()));
}

fn write_user_message<C: Conventions>(
    rules: &C,
    messages: &mut Vec<TranscriptMessage>,
    request: &str,
    ts: i64,
    model: Option<String>,
)
    ensures
        final(messages).deep_view() == old(messages).deep_view().push(
            user_message(rules, request@, ts, model.deep_view()),
        ),
{
    let ghost before = messages.deep_view();
    let (clipped, truncated) = rules.clip(request, rules.max_msg_text());
    let message = TranscriptMessage {
        seq: 0,
        role: Role::User,
        kind: rules.user_kind(request),
        text: clipped,
        truncated,
        tool_calls: Vec::new(),
        thinking: None,
        timestamp: time_shown(ts),
        model,
        images: Vec::new(),
    };
    assert(message.deep_view() =~= user_message(rules, request@, ts, model.deep_view()));
    messages.push(message);
    assert(messages.deep_view() =~= before.push(message.deep_view()));
}

fn new_call<C: Conventions>(
    rules: &C,
    step_index: i64,
    place: usize,
    call: &ToolCallRow,
) -> (r: (ToolCallView, Option<String>))
    ensures
        r.0.deep_view() == open_call(rules, step_index, place as int, call.deep_view()),
        r.1.deep_view() == tool_args::args_parts(rules, call.deep_view().args).2,
{
    let (preview, input, cwd) = parse_tool_args(rules, call.name.as_str(), call.args.as_ref());
    let mut id = "tc-".to_string();
    push_decimal(&mut id, step_index);
    id.push_str("-");
    push_count(&mut id, place);
    let view = ToolCallView {
        id,
        name: call.name.clone(),
        input_preview: preview,
        input,
        output: None,
        is_error: false,
        sidechain_ref: None,
    };
    assert(view.deep_view() =~= open_call(rules, step_index, place as int, call.deep_view()));
    (view, cwd)
}

/// Answers the last call that has not been answered, where there is one.
fn answer_call(calls: &mut Vec<ToolCallView>, output: String, is_error: bool) -> (r: bool)
    ensures
        match last_open(old(calls).deep_view()) {
            Some(i) => r && final(calls).deep_view() == old(calls).deep_view().update(
                i,
                ToolCallModel {
                    output: Some(output@),
                    is_error,
                    ..old(calls).deep_view()[i]
                },
            ),
            None => !r && final(calls).deep_view() == old(calls).deep_view(),
        },
{
    let ghost before = calls.deep_view();
    let mut i: usize = calls.len();
    assert(before.take(i as int) =~= before);
    while i > 0
        invariant
            i <= calls@.len(),
            before == old(calls).deep_view(),
            calls.deep_view() == before,
            last_open(before) == last_open(before.take(i as int)),
        decreases i,
    {
        let ghost head = before.take(i as int);
        i = i - 1;
        assert(head.last() == calls@[i as int].deep_view());
        assert(head.drop_last() =~= before.take(i as int));
        if calls[i].output.is_none() {
            calls[i].output = Some(output);
            calls[i].is_error = is_error;
            proof {
                let after = calls.deep_view();
                assert(after =~= before.update(
                    i as int,
                    ToolCallModel { output: Some(output@), is_error, ..before[i as int] },
                ));
            }
            return true;
        }
    }
    false
}

impl IdeReader {
    /// A reader that has read nothing.
    pub fn new() -> (r: IdeReader)
        ensures
            r.deep_view() == ReaderModel::start(),
    {
        let r = IdeReader {
            messages: Vec::new(),
            unknown_lines: 0,
            first_ts: 0,
            last_ts: 0,
            title: None,
            doc_path: None,
            tool_cwd: None,
            model: None,
            pending: PendingAssistant::default(),
        };
        assert(r.deep_view() =~= ReaderModel::start());
        r
    }

    fn note_time(&mut self, ts: i64)
        ensures
            final(self).deep_view() == old(self).deep_view().at_time(ts),
    {
        if ts > 0 {
            if self.first_ts == 0 {
                self.first_ts = ts;
            }
            self.last_ts = ts;
        }
    }

    fn flush<C: Conventions>(&mut self, rules: &C)
        ensures
            final(self).deep_view() == old(self).deep_view().flushed(rules),
    {
        flush_pending_assistant(rules, &mut self.pending, &mut self.messages);
    }

    fn read_user_input<C: Conventions>(&mut self, rules: &C, row: &Row, ts: i64)
        ensures
            final(self).deep_view() == user_step(rules, old(self).deep_view(), row.deep_view(), ts),
    {
        self.flush(rules);
        let (request, document, chosen) = extract_user_request(content_of(&row.content));
        if self.title.is_none() && !request.as_str().is_empty() {
            let cleaned = rules.clean_title_candidate(request.as_str());
            if !cleaned.as_str().is_empty() {
                self.title = Some(cleaned);
            }
        }
        if self.doc_path.is_none() {
            self.doc_path = document;
        }
        match chosen {
            Some(m) => {
                self.model = Some(m);
            },
            None => {},
        }
        write_user_message(rules, &mut self.messages, request.as_str(), ts, self.model.clone());
        assert(self.deep_view() =~= user_step(rules, old(self).deep_view(), row.deep_view(), ts));
    }

    fn add_calls<C: Conventions>(&mut self, rules: &C, step_index: i64, calls: &Vec<ToolCallRow>)
        ensures
            final(self).deep_view() == (ReaderModel {
                pending: PendingModel {
                    tool_calls: old(self).deep_view().pending.tool_calls + open_calls(
                        rules,
                        step_index,
                        calls.deep_view(),
                    ),
                    ..old(self).deep_view().pending
                },
                tool_cwd: cwd_after(rules, old(self).deep_view().tool_cwd, calls.deep_view()),
                ..old(self).deep_view()
            }),
    {
        let ghost start = self.deep_view();
        let ghost all = calls.deep_view();
        assert(start.pending.tool_calls + open_calls(rules, step_index, all.take(0))
            =~= start.pending.tool_calls);
        let mut i: usize = 0;
        while i < calls.len()
            invariant
                i <= calls@.len(),
                all == calls.deep_view(),
                start == old(self).deep_view(),
                self.deep_view() == (ReaderModel {
                    pending: PendingModel {
                        tool_calls: start.pending.tool_calls + open_calls(
                            rules,
                            step_index,
                            all.take(i as int),
                        ),
                        ..start.pending
                    },
                    tool_cwd: cwd_after(rules, start.tool_cwd, all.take(i as int)),
                    ..start
                }),
            decreases calls@.len() - i,
        {
            let ghost before = self.deep_view();
            let ghost head = all.take(i as int);
            let ghost next = all.take(i + 1);
            assert(next.drop_last() =~= head);
            assert(next.last() == calls@[i as int].deep_view());
            let (view, cwd) = new_call(rules, step_index, i, &calls[i]);
            if self.tool_cwd.is_none() {
                self.tool_cwd = cwd;
            }
            self.pending.tool_calls.push(view);
            proof {
                assert(self.pending.tool_calls.deep_view() =~= before.pending.tool_calls.push(
                    view.deep_view(),
                ));
                assert(open_calls(rules, step_index, next) =~= open_calls(
                    rules,
                    step_index,
                    head,
                ).push(view.deep_view()));
                assert(self.pending.tool_calls.deep_view() =~= start.pending.tool_calls
                    + open_calls(rules, step_index, next));
                assert(self.tool_cwd.deep_view() == cwd_after(rules, start.tool_cwd, next));
            }
            i = i + 1;
        }
        assert(all.take(i as int) =~= all);
    }

    fn read_planner_response<C: Conventions>(&mut self, rules: &C, row: &Row, ts: i64)
        ensures
            final(self).deep_view() == planner_step(
                rules,
                old(self).deep_view(),
                row.deep_view(),
                ts,
            ),
    {
        if self.pending.timestamp.is_none() {
            self.pending.timestamp = time_shown(ts);
        }
        if self.pending.model.is_none() {
            self.pending.model = self.model.clone();
        }
        let thought = trim_text(content_of(&row.thinking));
        if !thought.as_str().is_empty() {
            let mut thinking: Option<String> = None;
            std::mem::swap(&mut thinking, &mut self.pending.thinking);
            self.pending.thinking = match thinking {
                Some(mut known) => {
                    known.push_str("\n\n");
                    known.push_str(thought.as_str());
                    Some(known)
                },
                None => Some(thought),
            };
        }
        let said = trim_text(content_of(&row.content));
        if !said.as_str().is_empty() {
            if !self.pending.content.as_str().is_empty() {
                self.pending.content.push_str("\n\n");
            }
            self.pending.content.push_str(said.as_str());
        }
        proof {
            let old_content = old(self).deep_view().pending.content;
            assert(self.pending.content@ =~= more_content(old_content, row.content.deep_view()));
        }
        let ghost mid = self.deep_view();
        match &row.tool_calls {
            Some(calls) => {
                self.add_calls(rules, row.step_index, calls);
            },
            None => {
                assert(mid.pending.tool_calls + open_calls(rules, row.step_index, Seq::empty())
                    =~= mid.pending.tool_calls);
            },
        }
        assert(self.deep_view() =~= planner_step(
            rules,
            old(self).deep_view(),
            row.deep_view(),
            ts,
        ));
    }

    fn read_tool_result<C: Conventions>(&mut self, rules: &C, row: &Row, ts: i64)
        ensures
            final(self).deep_view() == result_step(
                rules,
                old(self).deep_view(),
                row.deep_view(),
                ts,
            ),
    {
        let is_error = same_text(row.status.as_str(), "ERROR") || same_text(
            row.step_type.as_str(),
            "ERROR_MESSAGE",
        );
        let said = trim_text(content_of(&row.content));
        let output = rules.clip(said.as_str(), rules.max_tool_io()).0;
        let answered = answer_call(&mut self.pending.tool_calls, output, is_error);
        if !answered && is_error && !said.as_str().is_empty() {
            write_system_message(
                rules,
                &mut self.messages,
                MessageKind::Text,
                said.as_str(),
                ts,
            );
        }
        assert(self.deep_view() =~= result_step(
            rules,
            old(self).deep_view(),
            row.deep_view(),
            ts,
        ));
    }

    fn read_checkpoint<C: Conventions>(&mut self, rules: &C, row: &Row, ts: i64)
        ensures
            final(self).deep_view() == checkpoint_step(
                rules,
                old(self).deep_view(),
                row.deep_view(),
                ts,
            ),
    {
        self.flush(rules);
        let said = trim_text(content_of(&row.content));
        if !said.as_str().is_empty() {
            write_system_message(
                rules,
                &mut self.messages,
                MessageKind::CompactSummary,
                said.as_str(),
                ts,
            );
        }
        assert(self.deep_view() =~= checkpoint_step(
            rules,
            old(self).deep_view(),
            row.deep_view(),
            ts,
        ));
    }

    /// Reads a step.
    pub fn read_step<C: Conventions>(&mut self, rules: &C, row: &Row)
        requires
            row::kind_of_step(row.deep_view().step_type) is Unknown ==> old(self).unknown_lines
                < u32::MAX,
        ensures
            final(self).deep_view() == after_row(rules, old(self).deep_view(), row.deep_view()),
    {
        let ts: i64 = rules.iso_ms(row.created_at.as_str());
        self.note_time(ts);
        match step_kind(row.step_type.as_str()) {
            StepKind::UserInput => {
                self.read_user_input(rules, row, ts);
            },
            StepKind::PlannerResponse => {
                self.read_planner_response(rules, row, ts);
            },
            StepKind::ToolResult => {
                self.read_tool_result(rules, row, ts);
            },
            StepKind::Checkpoint => {
                self.read_checkpoint(rules, row, ts);
            },
            StepKind::Ignored => {},
            StepKind::Unknown => {
                assert(self.unknown_lines == old(self).unknown_lines);
                self.unknown_lines = self.unknown_lines + 1;
            },
        }
    }

    /// Reads a line; `None` stands for one that could not be had.
    pub fn read_line<C: Conventions>(&mut self, rules: &C, line: &Option<String>)
        requires
            is_unknown_line(line.deep_view()) ==> old(self).unknown_lines < u32::MAX,
        ensures
            final(self).deep_view() == after_line(rules, old(self).deep_view(), line.deep_view()),
    {
        match line {
            None => {
                self.unknown_lines = self.unknown_lines + 1;
            },
            Some(line) => {
                if !is_blank(line.as_str()) {
                    match json::value_from_str(line.as_str()) {
                        Some(value) => {
                            let row = read_row(&value);
                            self.read_step(rules, &row);
                        },
                        None => {
                            self.unknown_lines = self.unknown_lines + 1;
                        },
                    }
                }
            },
        }
    }

    /// Reads a line, unless it is one unknown line more than can be counted: that
    /// leaves everything as it is, and the result is `false`.
    pub fn try_read_line<C: Conventions>(&mut self, rules: &C, line: &Option<String>) -> (r: bool)
        ensures
            r == !(is_unknown_line(line.deep_view()) && old(self).unknown_lines == u32::MAX),
            final(self).deep_view() == (if r {
                after_line(rules, old(self).deep_view(), line.deep_view())
            } else {
                old(self).deep_view()
            }),
    {
        if self.unknown_lines == u32::MAX && says_nothing_known(line) {
            return false;
        }
        self.read_line(rules, line);
        true
    }

    /// What the transcript says, once all of it has been read.
    pub fn finish<C: Conventions>(self, rules: &C) -> (r: AntigravityIdeParse)
        ensures
            r.deep_view() == finished(rules, self.deep_view()),
    {
        let mut reader = self;
        reader.flush(rules);
        let mut messages = reader.messages;
        assign_seq(&mut messages);
        let project_path = match reader.tool_cwd {
            Some(path) => Some(path),
            None => reader.doc_path,
        };
        AntigravityIdeParse {
            messages,
            title: reader.title,
            project_path,
            model: reader.model,
            created_at: reader.first_ts,
            updated_at: reader.last_ts,
            unknown_lines: reader.unknown_lines,
        }
    }
}

/// The unknown lines are counted, and there are no more of them than lines.
pub proof fn lemma_unknown_lines<C: Conventions>(rules: &C, lines: Seq<Option<Seq<char>>>)
    ensures
        after_lines(rules, lines).unknown_lines == unknown_count(lines),
        unknown_count(lines) <= lines.len(),
    decreases lines.len(),
{
    if lines.len() > 0 {
        lemma_unknown_lines(rules, lines.drop_last());
    }
}

/// The first lines hold no more unknown ones than all of them.
proof fn lemma_unknown_lines_so_far(lines: Seq<Option<Seq<char>>>, n: int)
    requires
        0 <= n <= lines.len(),
    ensures
        unknown_count(lines.take(n)) <= unknown_count(lines),
    decreases lines.len() - n,
{
    if n < lines.len() {
        assert(lines.take(n + 1).drop_last() =~= lines.take(n));
        lemma_unknown_lines_so_far(lines, n + 1);
    } else {
        assert(lines.take(n) =~= lines);
    }
}

/// Whether a line says nothing known; `None` stands for one that could not be had.
pub fn says_nothing_known(line: &Option<String>) -> (r: bool)
    ensures
        r == is_unknown_line(line.deep_view()),
{
    match line {
        None => true,
        Some(line) => {
            if is_blank(line.as_str()) {
                return false;
            }
            match json::value_from_str(line.as_str()) {
                Some(value) => {
                    let row = read_row(&value);
                    step_kind(row.step_type.as_str()) == StepKind::Unknown
                },
                None => true,
            }
        },
    }
}

/// How many of the lines say nothing known.
pub fn count_unknown_lines(lines: &Vec<Option<String>>) -> (r: usize)
    ensures
        r == unknown_count(lines.deep_view()),
{
    let ghost all = lines.deep_view();
    let mut count: usize = 0;
    let mut i: usize = 0;
    while i < lines.len()
        invariant
            count <= i <= lines@.len(),
            all == lines.deep_view(),
            count == unknown_count(all.take(i as int)),
        decreases lines@.len() - i,
    {
        assert(all.take(i + 1).drop_last() =~= all.take(i as int));
        assert(all.take(i + 1).last() == lines@[i as int].deep_view());
        if says_nothing_known(&lines[i]) {
            count = count + 1;
        }
        i = i + 1;
    }
    assert(all.take(i as int) =~= all);
    count
}

/// Reads the lines of a transcript; `None` stands for one that could not be had.
pub fn parse_antigravity_jsonl<C: Conventions>(rules: &C, lines: &Vec<Option<String>>) -> (r:
    AntigravityIdeParse)
    requires
        unknown_count(lines.deep_view()) <= u32::MAX,
    ensures
        r.deep_view() == transcript_of(rules, lines.deep_view()),
{
    let ghost all = lines.deep_view();
    let mut reader = IdeReader::new();
    let mut i: usize = 0;
    while i < lines.len()
        invariant
            i <= lines@.len(),
            all == lines.deep_view(),
            unknown_count(all) <= u32::MAX,
            reader.deep_view() == after_lines(rules, all.take(i as int)),
        decreases lines@.len() - i,
    {
        proof {
            lemma_unknown_lines(rules, all.take(i as int));
            lemma_unknown_lines_so_far(all, i + 1);
            assert(all.take(i + 1).drop_last() =~= all.take(i as int));
            assert(all.take(i + 1).last() == lines@[i as int].deep_view());
        }
        reader.read_line(rules, &lines[i]);
        i = i + 1;
    }
    assert(all.take(i as int) =~= all);
    reader.finish(rules)
}

/// Reads the lines of a transcript, and gives `None` where more of them say nothing
/// known than can be counted.
pub fn try_parse_antigravity_jsonl<C: Conventions>(rules: &C, lines: &Vec<Option<String>>) -> (r:
    Option<AntigravityIdeParse>)
    ensures
        r.deep_view() == (if unknown_count(lines.deep_view()) <= u32::MAX {
            Some(transcript_of(rules, lines.deep_view()))
        } else {
            None
        }),
{
    let max: usize = u32::MAX as usize;
    proof {
        lemma_unknown_lines(rules, lines.deep_view());
    }
    if lines.len() <= max || count_unknown_lines(lines) <= max {
        Some(parse_antigravity_jsonl(rules, lines))
    } else {
        None
    }
}

} // verus!
