//! What a whole transcript says, told from its lines: its requests, the calls of its
//! answers, its times, title, project and model, and how the list of sessions shows
//! them.

use crate::adapter::AdapterModel;
use crate::conventions::Conventions;
use crate::json::Json;
use crate::models::{MessageModel, RefModel, Role};
use crate::request;
use crate::sessions;
use crate::step_laws;
use crate::text;
use crate::tool_args;
use crate::transcript;
use crate::transcript::ReaderModel;
use vstd::prelude::*;

verus! {

/// The members of the step on a line, where it holds one.
pub open spec fn step_on(line: Option<Seq<char>>) -> Option<Map<Seq<char>, Json>> {
    match line {
        Some(l) => if text::trimmed(l).len() == 0 {
            None
        } else {
            match crate::json::parsed_json(l) {
                Some(Json::Object(members)) => Some(members),
                _ => None,
            }
        },
        None => None,
    }
}

/// The type of the step on a line, empty where there is none.
pub open spec fn type_on(line: Option<Seq<char>>) -> Seq<char> {
    match step_on(line) {
        Some(members) => step_laws::text_in(members, "type"@),
        None => Seq::empty(),
    }
}

/// The time of the step on a line, zero where there is none.
pub open spec fn time_on<C: Conventions>(rules: &C, line: Option<Seq<char>>) -> i64 {
    match step_on(line) {
        Some(members) => rules.iso_time(step_laws::text_in(members, "created_at"@)),
        None => 0,
    }
}

/// What the step on a line says, where it is one of the user.
pub open spec fn user_text_on(line: Option<Seq<char>>) -> Option<Seq<char>> {
    match step_on(line) {
        Some(members) => if step_laws::text_in(members, "type"@) == "USER_INPUT"@ {
            Some(step_laws::text_in(members, "content"@))
        } else {
            None
        },
        None => None,
    }
}

/// The calls that the step on a line lists, where it is one of the model.
pub open spec fn calls_on(line: Option<Seq<char>>) -> Seq<Json> {
    match step_on(line) {
        Some(members) => if step_laws::text_in(members, "type"@) == "PLANNER_RESPONSE"@ {
            step_laws::items_in(members, "tool_calls"@)
        } else {
            Seq::empty()
        },
        None => Seq::empty(),
    }
}

/// The model that the line of a user names.
pub open spec fn model_on(line: Option<Seq<char>>) -> Option<Seq<char>> {
    match user_text_on(line) {
        Some(content) => request::chosen_model(content),
        None => None,
    }
}

/// The title that the line of a user gives.
pub open spec fn title_on<C: Conventions>(rules: &C, line: Option<Seq<char>>) -> Option<Seq<char>> {
    match user_text_on(line) {
        Some(content) => {
            let asked = request::request_text(content);
            if asked.len() > 0 && rules.title_of(asked).len() > 0 {
                Some(rules.title_of(asked))
            } else {
                None
            }
        },
        None => None,
    }
}

/// The document that the line of a user names.
pub open spec fn document_on(line: Option<Seq<char>>) -> Option<Seq<char>> {
    match user_text_on(line) {
        Some(content) => request::document_path(content),
        None => None,
    }
}

/// The directory that a call tells, where it tells one.
pub open spec fn dir_of_call<C: Conventions>(rules: &C, item: Json) -> Option<Seq<char>> {
    tool_args::args_parts(rules, step_laws::call_args(item)).2
}

/// The directories that the calls of the lines tell, in their order.
pub open spec fn dirs_told<C: Conventions>(rules: &C, lines: Seq<Option<Seq<char>>>) -> Seq<
    Option<Seq<char>>,
>
    decreases lines.len(),
{
    if lines.len() == 0 {
        Seq::empty()
    } else {
        dirs_told(rules, lines.drop_last()) + calls_on(lines.last()).map_values(
            |item: Json| dir_of_call(rules, item),
        )
    }
}

/// The documents that the lines name, in their order.
pub open spec fn documents_named(lines: Seq<Option<Seq<char>>>) -> Seq<Option<Seq<char>>> {
    lines.map_values(|line: Option<Seq<char>>| document_on(line))
}

/// How many calls the lines list.
pub open spec fn calls_listed(lines: Seq<Option<Seq<char>>>) -> nat
    decreases lines.len(),
{
    if lines.len() == 0 {
        0
    } else {
        calls_listed(lines.drop_last()) + calls_on(lines.last()).len()
    }
}

/// How many calls messages show.
pub open spec fn calls_shown(messages: Seq<MessageModel>) -> nat
    decreases messages.len(),
{
    if messages.len() == 0 {
        0
    } else {
        calls_shown(messages.drop_last()) + messages.last().tool_calls.len()
    }
}

/// The requests of the lines as messages show them, in their order.
pub open spec fn requests_made<C: Conventions>(rules: &C, lines: Seq<Option<Seq<char>>>) -> Seq<
    Seq<char>,
>
    decreases lines.len(),
{
    if lines.len() == 0 {
        Seq::empty()
    } else {
        match user_text_on(lines.last()) {
            Some(content) => requests_made(rules, lines.drop_last()).push(
                rules.clipped(request::request_text(content), rules.msg_limit()).0,
            ),
            None => requests_made(rules, lines.drop_last()),
        }
    }
}

/// The texts of the messages of the user, in their order.
pub open spec fn user_texts(messages: Seq<MessageModel>) -> Seq<Seq<char>>
    decreases messages.len(),
{
    if messages.len() == 0 {
        Seq::empty()
    } else if messages.last().role == Role::User {
        user_texts(messages.drop_last()).push(messages.last().text)
    } else {
        user_texts(messages.drop_last())
    }
}

/// Whether a line says nothing known.
pub open spec fn is_strange(line: Option<Seq<char>>) -> bool {
    match line {
        Some(l) => text::trimmed(l).len() > 0 && !step_laws::is_known_type(type_on(line)),
        None => true,
    }
}

/// How many of the lines say nothing known.
pub open spec fn strange_lines(lines: Seq<Option<Seq<char>>>) -> nat
    decreases lines.len(),
{
    if lines.len() == 0 {
        0
    } else if is_strange(lines.last()) {
        strange_lines(lines.drop_last()) + 1
    } else {
        strange_lines(lines.drop_last())
    }
}

/// What one line adds to all that is told from the lines.
proof fn lemma_one_line<C: Conventions>(rules: &C, s: ReaderModel, line: Option<Seq<char>>)
    ensures
        ({
            let t = transcript::after_line(rules, s, line);
            &&& step_laws::times_follow(s, t, time_on(rules, line))
            &&& t.model == if model_on(line) is Some {
                model_on(line)
            } else {
                s.model
            }
            &&& t.title == if s.title is Some {
                s.title
            } else {
                title_on(rules, line)
            }
            &&& t.doc_path == if s.doc_path is Some {
                s.doc_path
            } else {
                document_on(line)
            }
            &&& s.tool_cwd is Some ==> t.tool_cwd == s.tool_cwd
            &&& s.tool_cwd is None ==> step_laws::is_first_told(
                calls_on(line).map_values(|item: Json| dir_of_call(rules, item)),
                t.tool_cwd,
            )
            &&& t.unknown_lines == s.unknown_lines + if is_strange(line) {
                1int
            } else {
                0
            }
        }),
{
    rules.no_time_is_not_positive();
    let t = transcript::after_line(rules, s, line);
    match line {
        Some(l) => {
            let empty = Map::<Seq<char>, Json>::empty();
            step_laws::law_an_unknown_line_is_counted(rules, s, l, empty);
            if text::trimmed(l).len() > 0 {
                match crate::json::parsed_json(l) {
                    Some(Json::Object(m)) => {
                        lemma_one_step(rules, s, l, m);
                    },
                    Some(value) => {
                        step_laws::law_json_that_is_no_object_is_unknown(rules, s, l, value);
                        step_laws::lemma_no_type_is_empty();
                    },
                    None => {
                        step_laws::lemma_no_type_is_empty();
                    },
                }
            }
        },
        None => {},
    }
}

/// As above, for a line that holds a step.
proof fn lemma_one_step<C: Conventions>(
    rules: &C,
    s: ReaderModel,
    line: Seq<char>,
    members: Map<Seq<char>, Json>,
)
    requires
        step_laws::is_step(line, members),
    ensures
        ({
            let whole = Some(line);
            let t = transcript::after_line(rules, s, whole);
            &&& step_laws::times_follow(s, t, time_on(rules, whole))
            &&& t.model == if model_on(whole) is Some {
                model_on(whole)
            } else {
                s.model
            }
            &&& t.title == if s.title is Some {
                s.title
            } else {
                title_on(rules, whole)
            }
            &&& t.doc_path == if s.doc_path is Some {
                s.doc_path
            } else {
                document_on(whole)
            }
            &&& s.tool_cwd is Some ==> t.tool_cwd == s.tool_cwd
            &&& s.tool_cwd is None ==> step_laws::is_first_told(
                calls_on(whole).map_values(|item: Json| dir_of_call(rules, item)),
                t.tool_cwd,
            )
            &&& t.unknown_lines == s.unknown_lines + if is_strange(whole) {
                1int
            } else {
                0
            }
        }),
{
    let kind = step_laws::text_in(members, "type"@);
    step_laws::lemma_lone_types(kind);
    if kind == "USER_INPUT"@ {
        step_laws::law_a_request_is_a_message(rules, s, line, members);
    } else if kind == "PLANNER_RESPONSE"@ {
        step_laws::law_an_answer_is_gathered(rules, s, line, members);
        let items = step_laws::items_in(members, "tool_calls"@);
        assert(items.map_values(|item: Json| dir_of_call(rules, item)) =~= items.map_values(
            |item: Json| tool_args::args_parts(rules, step_laws::call_args(item)).2,
        ));
    } else if kind == "CHECKPOINT"@ {
        step_laws::law_a_checkpoint_is_a_summary(rules, s, line, members);
    } else if step_laws::is_report_type(kind) {
        step_laws::law_a_report_is_an_answer(rules, s, line, members);
    } else if step_laws::is_idle_type(kind) {
        step_laws::law_an_idle_step_counts_for_the_times(rules, s, line, members);
    } else {
        step_laws::law_an_unknown_line_is_counted(rules, s, line, members);
    }
}

/// The first that is told in two lists, one behind the other.
proof fn lemma_first_of_two(
    first: Seq<Option<Seq<char>>>,
    second: Seq<Option<Seq<char>>>,
    a: Option<Seq<char>>,
    b: Option<Seq<char>>,
)
    requires
        step_laws::is_first_told(first, a),
        a is None ==> step_laws::is_first_told(second, b),
        a is Some ==> b == a,
    ensures
        step_laws::is_first_told(first + second, b),
{
    let all = first + second;
    let n = first.len() as int;
    match a {
        Some(_) => {
            let i = choose|i: int|
                #![trigger first[i]]
                0 <= i < first.len() && first[i] == a && forall|j: int|
                    #![trigger first[j]]
                    0 <= j < i ==> first[j] is None;
            assert(all[i] == b);
            assert forall|j: int| #![trigger all[j]] 0 <= j < i implies all[j] is None by {
                assert(first[j] is None);
            }
        },
        None => {
            assert forall|j: int| #![trigger all[j]] 0 <= j < n implies all[j] is None by {
                assert(first[j] is None);
            }
            match b {
                Some(_) => {
                    let i = choose|i: int|
                        #![trigger second[i]]
                        0 <= i < second.len() && second[i] == b && forall|j: int|
                            #![trigger second[j]]
                            0 <= j < i ==> second[j] is None;
                    assert(all[n + i] == b);
                    assert forall|j: int| #![trigger all[j]] 0 <= j < n + i implies all[j] is None by {
                        if j >= n {
                            assert(second[j - n] is None);
                        }
                    }
                },
                None => {
                    assert forall|j: int| #![trigger all[j]] 0 <= j < all.len() implies all[j] is None by {
                        if j >= n {
                            assert(second[j - n] is None);
                        }
                    }
                },
            }
        },
    }
}

/// The times of a transcript are told by its lines: it was created at the time of
/// the first line with a positive one, and updated at that of the last; where no
/// line has one, it has neither.
pub proof fn law_times_are_those_of_the_lines<C: Conventions>(
    rules: &C,
    lines: Seq<Option<Seq<char>>>,
    i: int,
)
    ensures
        ({
            let parsed = transcript::transcript_of(rules, lines);
            &&& 0 <= i < lines.len() && time_on(rules, lines[i]) > 0 && (forall|j: int|
                #![trigger lines[j]]
                0 <= j < i ==> time_on(rules, lines[j]) <= 0) ==> parsed.created_at == time_on(
                rules,
                lines[i],
            )
            &&& 0 <= i < lines.len() && time_on(rules, lines[i]) > 0 && (forall|j: int|
                #![trigger lines[j]]
                i < j < lines.len() ==> time_on(rules, lines[j]) <= 0) ==> parsed.updated_at
                == time_on(rules, lines[i])
            &&& (forall|j: int|
                #![trigger lines[j]]
                0 <= j < lines.len() ==> time_on(rules, lines[j]) <= 0) ==> parsed.created_at == 0
                && parsed.updated_at == 0
        }),
    decreases lines.len(),
{
    step_laws::law_a_transcript_begins_and_ends(rules, lines);
    if lines.len() > 0 {
        let rest = lines.drop_last();
        let n = rest.len() as int;
        step_laws::law_a_transcript_begins_and_ends(rules, rest);
        lemma_one_line(rules, transcript::after_lines(rules, rest), lines.last());
        assert forall|j: int| #![trigger lines[j]] 0 <= j < n implies lines[j] == rest[j] by {}
        assert forall|j: int| #![trigger rest[j]] 0 <= j < n implies lines[j] == rest[j] by {}
        assert(lines[n] == lines.last());
        law_times_are_those_of_the_lines(rules, rest, i);
        let first = transcript::after_lines(rules, rest).first_ts;
        if 0 <= i < n && time_on(rules, lines[i]) > 0 {
            assert(rest[i] == lines[i]);
        }
        lemma_first_time_is_positive(rules, rest);
    }
}

/// The first time is zero where no line has a positive one, else positive.
proof fn lemma_first_time_is_positive<C: Conventions>(rules: &C, lines: Seq<Option<Seq<char>>>)
    ensures
        ({
            let s = transcript::after_lines(rules, lines);
            &&& s.first_ts >= 0
            &&& s.first_ts == 0 <==> forall|j: int|
                #![trigger lines[j]]
                0 <= j < lines.len() ==> time_on(rules, lines[j]) <= 0
        }),
    decreases lines.len(),
{
    step_laws::law_a_transcript_begins_and_ends(rules, lines);
    if lines.len() > 0 {
        let rest = lines.drop_last();
        lemma_first_time_is_positive(rules, rest);
        lemma_one_line(rules, transcript::after_lines(rules, rest), lines.last());
        assert forall|j: int| #![trigger rest[j]] 0 <= j < rest.len() implies lines[j]
            == rest[j] by {}
        assert forall|j: int| #![trigger lines[j]] 0 <= j < rest.len() implies lines[j]
            == rest[j] by {}
        assert(lines[lines.len() - 1] == lines.last());
    }
}

/// A session that is read from a transcript shows as its times those of the first
/// and of the last line with a positive one, and only where no line has one that of
/// the file.
pub proof fn law_a_session_shows_the_times_of_its_lines<C: Conventions>(
    adapter: AdapterModel,
    rules: &C,
    r: RefModel,
    source: sessions::SessionSource,
    lines: Seq<Option<Seq<char>>>,
    i: int,
)
    requires
        !r.file_path.contains('#'),
        source.transcript matches Ok(t) && t.parsed.deep_view() == transcript::transcript_of(
            rules,
            lines,
        ),
    ensures
        sessions::outcome_of(adapter, rules, r, source) matches Ok(parts) && {
            &&& 0 <= i < lines.len() && time_on(rules, lines[i]) > 0 && (forall|j: int|
                #![trigger lines[j]]
                0 <= j < i ==> time_on(rules, lines[j]) <= 0) ==> parts.0.created_at == time_on(
                rules,
                lines[i],
            )
            &&& 0 <= i < lines.len() && time_on(rules, lines[i]) > 0 && (forall|j: int|
                #![trigger lines[j]]
                i < j < lines.len() ==> time_on(rules, lines[j]) <= 0) ==> parts.0.updated_at
                == time_on(rules, lines[i])
            &&& (forall|j: int|
                #![trigger lines[j]]
                0 <= j < lines.len() ==> time_on(rules, lines[j]) <= 0) ==> parts.0.created_at
                == r.mtime_ms && parts.0.updated_at == r.mtime_ms
        },
{
    law_times_are_those_of_the_lines(rules, lines, i);
}

/// The model of a transcript is the one that the last line of the user that names
/// any names, and it has none where no line does.
pub proof fn law_the_model_named_last_counts<C: Conventions>(
    rules: &C,
    lines: Seq<Option<Seq<char>>>,
    i: int,
)
    ensures
        ({
            let parsed = transcript::transcript_of(rules, lines);
            &&& 0 <= i < lines.len() && model_on(lines[i]) is Some && (forall|j: int|
                #![trigger lines[j]]
                i < j < lines.len() ==> model_on(lines[j]) is None) ==> parsed.model == model_on(
                lines[i],
            )
            &&& (forall|j: int|
                #![trigger lines[j]]
                0 <= j < lines.len() ==> model_on(lines[j]) is None) ==> parsed.model is None
        }),
    decreases lines.len(),
{
    step_laws::law_a_transcript_begins_and_ends(rules, lines);
    if lines.len() > 0 {
        let rest = lines.drop_last();
        let n = rest.len() as int;
        step_laws::law_a_transcript_begins_and_ends(rules, rest);
        lemma_one_line(rules, transcript::after_lines(rules, rest), lines.last());
        assert forall|j: int| #![trigger rest[j]] 0 <= j < n implies lines[j] == rest[j] by {}
        assert(lines[n] == lines.last());
        law_the_model_named_last_counts(rules, rest, i);
        if 0 <= i < n {
            assert(rest[i] == lines[i]);
        }
    }
}

/// The title of a transcript is that of the first request that gives one.
pub proof fn law_the_first_title_counts<C: Conventions>(rules: &C, lines: Seq<Option<Seq<char>>>)
    ensures
        step_laws::is_first_told(
            lines.map_values(|line: Option<Seq<char>>| title_on(rules, line)),
            transcript::transcript_of(rules, lines).title,
        ),
    decreases lines.len(),
{
    step_laws::law_a_transcript_begins_and_ends(rules, lines);
    let all = lines.map_values(|line: Option<Seq<char>>| title_on(rules, line));
    if lines.len() > 0 {
        let rest = lines.drop_last();
        step_laws::law_a_transcript_begins_and_ends(rules, rest);
        law_the_first_title_counts(rules, rest);
        lemma_one_line(rules, transcript::after_lines(rules, rest), lines.last());
        let less = rest.map_values(|line: Option<Seq<char>>| title_on(rules, line));
        let last = seq![title_on(rules, lines.last())];
        assert(all =~= less + last);
        assert(last[0] == title_on(rules, lines.last()));
        assert(step_laws::is_first_told(last, title_on(rules, lines.last())));
        lemma_first_of_two(
            less,
            last,
            transcript::transcript_of(rules, rest).title,
            transcript::transcript_of(rules, lines).title,
        );
    }
}

/// The path that tells the project of a transcript is the first directory that a
/// call tells, and where no call tells any the first document that a request names.
pub proof fn law_a_directory_goes_before_a_document<C: Conventions>(
    rules: &C,
    lines: Seq<Option<Seq<char>>>,
)
    ensures
        step_laws::is_first_told(
            dirs_told(rules, lines) + documents_named(lines),
            transcript::transcript_of(rules, lines).project_path,
        ),
{
    step_laws::law_a_transcript_begins_and_ends(rules, lines);
    lemma_dirs_and_documents(rules, lines);
    let s = transcript::after_lines(rules, lines);
    lemma_first_of_two(
        dirs_told(rules, lines),
        documents_named(lines),
        s.tool_cwd,
        transcript::transcript_of(rules, lines).project_path,
    );
}

proof fn lemma_dirs_and_documents<C: Conventions>(rules: &C, lines: Seq<Option<Seq<char>>>)
    ensures
        step_laws::is_first_told(
            dirs_told(rules, lines),
            transcript::after_lines(rules, lines).tool_cwd,
        ),
        step_laws::is_first_told(
            documents_named(lines),
            transcript::after_lines(rules, lines).doc_path,
        ),
    decreases lines.len(),
{
    step_laws::law_a_transcript_begins_and_ends(rules, lines);
    if lines.len() > 0 {
        let rest = lines.drop_last();
        let s = transcript::after_lines(rules, rest);
        let t = transcript::after_lines(rules, lines);
        lemma_dirs_and_documents(rules, rest);
        lemma_one_line(rules, s, lines.last());
        lemma_first_of_two(
            dirs_told(rules, rest),
            calls_on(lines.last()).map_values(|item: Json| dir_of_call(rules, item)),
            s.tool_cwd,
            t.tool_cwd,
        );
        let last = seq![document_on(lines.last())];
        assert(documents_named(lines) =~= documents_named(rest) + last);
        assert(last[0] == document_on(lines.last()));
        assert(step_laws::is_first_told(last, document_on(lines.last())));
        lemma_first_of_two(documents_named(rest), last, s.doc_path, t.doc_path);
    }
}

/// The lines that say nothing known are counted.
pub proof fn law_strange_lines_are_counted<C: Conventions>(
    rules: &C,
    lines: Seq<Option<Seq<char>>>,
)
    ensures
        transcript::transcript_of(rules, lines).unknown_lines == strange_lines(lines),
    decreases lines.len(),
{
    step_laws::law_a_transcript_begins_and_ends(rules, lines);
    if lines.len() > 0 {
        let rest = lines.drop_last();
        step_laws::law_a_transcript_begins_and_ends(rules, rest);
        law_strange_lines_are_counted(rules, rest);
        lemma_one_line(rules, transcript::after_lines(rules, rest), lines.last());
    }
}

/// The calls and requests that a message more adds.
proof fn lemma_one_message_more(messages: Seq<MessageModel>, m: MessageModel)
    ensures
        calls_shown(messages.push(m)) == calls_shown(messages) + m.tool_calls.len(),
        user_texts(messages.push(m)) == if m.role == Role::User {
            user_texts(messages).push(m.text)
        } else {
            user_texts(messages)
        },
{
    assert(messages.push(m).drop_last() =~= messages);
}

/// Writing out an answer moves its calls into a message, which is none of the user.
proof fn lemma_written_out<C: Conventions>(rules: &C, s: ReaderModel)
    ensures
        calls_shown(step_laws::written_out(rules, s)) == calls_shown(s.messages)
            + s.pending.tool_calls.len(),
        user_texts(step_laws::written_out(rules, s)) == user_texts(s.messages),
{
    let all = step_laws::written_out(rules, s);
    if !step_laws::nothing_gathered(s.pending) {
        lemma_one_message_more(s.messages, all.last());
        assert(all =~= s.messages.push(all.last()));
    }
}

/// Numbering messages changes neither their calls nor their texts.
proof fn lemma_numbering(all: Seq<MessageModel>, numbered: Seq<MessageModel>)
    requires
        numbered.len() == all.len(),
        forall|i: int|
            #![trigger numbered[i]]
            0 <= i < all.len() ==> numbered[i] == (MessageModel { seq: i, ..all[i] }),
    ensures
        calls_shown(numbered) == calls_shown(all),
        user_texts(numbered) == user_texts(all),
    decreases all.len(),
{
    if all.len() > 0 {
        let a = all.drop_last();
        let b = numbered.drop_last();
        assert forall|i: int| #![trigger b[i]] 0 <= i < a.len() implies b[i] == (MessageModel {
            seq: i,
            ..a[i]
        }) by {
            assert(b[i] == numbered[i]);
        }
        lemma_numbering(a, b);
        assert(numbered[all.len() - 1] == numbered.last());
    }
}

/// What one line adds to the calls and to the requests.
proof fn lemma_calls_and_requests<C: Conventions>(
    rules: &C,
    s: ReaderModel,
    line: Option<Seq<char>>,
)
    ensures
        ({
            let t = transcript::after_line(rules, s, line);
            &&& calls_shown(t.messages) + t.pending.tool_calls.len() == calls_shown(s.messages)
                + s.pending.tool_calls.len() + calls_on(line).len()
            &&& user_texts(t.messages) == match user_text_on(line) {
                Some(content) => user_texts(s.messages).push(
                    rules.clipped(request::request_text(content), rules.msg_limit()).0,
                ),
                None => user_texts(s.messages),
            }
        }),
{
    let t = transcript::after_line(rules, s, line);
    lemma_written_out(rules, s);
    match line {
        Some(l) => {
            let empty = Map::<Seq<char>, Json>::empty();
            step_laws::law_an_unknown_line_is_counted(rules, s, l, empty);
            match step_on(line) {
                Some(m) => {
                    let kind = step_laws::text_in(m, "type"@);
                    step_laws::lemma_lone_types(kind);
                    if kind == "USER_INPUT"@ {
                        step_laws::law_a_request_is_a_message(rules, s, l, m);
                        lemma_one_message_more(
                            step_laws::written_out(rules, s),
                            t.messages.last(),
                        );
                    } else if kind == "PLANNER_RESPONSE"@ {
                        step_laws::law_an_answer_is_gathered(rules, s, l, m);
                    } else if kind == "CHECKPOINT"@ {
                        step_laws::law_a_checkpoint_is_a_summary(rules, s, l, m);
                        lemma_one_message_more(
                            step_laws::written_out(rules, s),
                            t.messages.last(),
                        );
                    } else if step_laws::is_report_type(kind) {
                        lemma_report_keeps_calls(rules, s, l, m);
                    } else if step_laws::is_idle_type(kind) {
                        step_laws::law_an_idle_step_counts_for_the_times(rules, s, l, m);
                    } else {
                        step_laws::law_an_unknown_line_is_counted(rules, s, l, m);
                    }
                },
                None => {
                    if text::trimmed(l).len() > 0 && crate::json::parsed_json(l) is Some {
                        step_laws::law_json_that_is_no_object_is_unknown(
                            rules,
                            s,
                            l,
                            crate::json::parsed_json(l)->0,
                        );
                    }
                },
            }
        },
        None => {
            let empty = Map::<Seq<char>, Json>::empty();
            step_laws::law_an_unknown_line_is_counted(rules, s, Seq::empty(), empty);
        },
    }
}

proof fn lemma_report_keeps_calls<C: Conventions>(
    rules: &C,
    s: ReaderModel,
    line: Seq<char>,
    members: Map<Seq<char>, Json>,
)
    requires
        step_laws::is_step(line, members),
        step_laws::is_report_type(step_laws::text_in(members, "type"@)),
    ensures
        ({
            let t = transcript::after_line(rules, s, Some(line));
            &&& calls_shown(t.messages) + t.pending.tool_calls.len() == calls_shown(s.messages)
                + s.pending.tool_calls.len()
            &&& user_texts(t.messages) == user_texts(s.messages)
        }),
{
    let t = transcript::after_line(rules, s, Some(line));
    let calls = s.pending.tool_calls;
    step_laws::law_a_report_is_an_answer(rules, s, line, members);
    crate::laws::law_last_open_is_the_last(calls);
    if t.messages != s.messages {
        lemma_one_message_more(s.messages, t.messages.last());
    }
    match transcript::last_open(calls) {
        Some(k) => {
            assert(calls[k].output is None);
        },
        None => {},
    }
}

/// No call is lost or made up: the messages of a transcript show as many calls as
/// its lines list.
pub proof fn law_the_calls_add_up<C: Conventions>(rules: &C, lines: Seq<Option<Seq<char>>>)
    ensures
        calls_shown(transcript::transcript_of(rules, lines).messages) == calls_listed(lines),
{
    lemma_so_far(rules, lines);
    step_laws::law_a_transcript_begins_and_ends(rules, lines);
    let s = transcript::after_lines(rules, lines);
    lemma_written_out(rules, s);
    lemma_numbering(
        step_laws::written_out(rules, s),
        transcript::transcript_of(rules, lines).messages,
    );
}

/// Each request of the user is one message of the user, in their order, and there
/// are no others.
pub proof fn law_each_request_is_one_message<C: Conventions>(
    rules: &C,
    lines: Seq<Option<Seq<char>>>,
)
    ensures
        user_texts(transcript::transcript_of(rules, lines).messages) == requests_made(rules, lines),
{
    lemma_so_far(rules, lines);
    step_laws::law_a_transcript_begins_and_ends(rules, lines);
    let s = transcript::after_lines(rules, lines);
    lemma_written_out(rules, s);
    lemma_numbering(
        step_laws::written_out(rules, s),
        transcript::transcript_of(rules, lines).messages,
    );
}

proof fn lemma_so_far<C: Conventions>(rules: &C, lines: Seq<Option<Seq<char>>>)
    ensures
        ({
            let s = transcript::after_lines(rules, lines);
            &&& calls_shown(s.messages) + s.pending.tool_calls.len() == calls_listed(lines)
            &&& user_texts(s.messages) == requests_made(rules, lines)
        }),
    decreases lines.len(),
{
    step_laws::law_a_transcript_begins_and_ends(rules, lines);
    if lines.len() > 0 {
        let rest = lines.drop_last();
        lemma_so_far(rules, rest);
        lemma_calls_and_requests(rules, transcript::after_lines(rules, rest), lines.last());
    }
}

} // verus!
