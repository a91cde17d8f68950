//! What holds of transcripts, listings and summaries as a whole.

use crate::adapter::{AdapterModel, AntigravityAdapter};
use crate::conventions::Conventions;
use crate::json;
use crate::layout;
use crate::models::{MessageModel, RefModel, ToolCallModel};
use crate::paths;
use crate::pending;
use crate::pending::PendingModel;
use crate::projects;
use crate::request;
use crate::row;
use crate::row::{RowModel, StepKind};
use crate::sessions;
use crate::sessions::EntryModel;
use crate::store::AgRowModel;
use crate::text;
use crate::transcript;
use crate::transcript::ReaderModel;
use crate::workspace;
use vstd::prelude::*;

verus! {

/// What has been read once more lines are, from what had been read before.
pub open spec fn read_on<C: Conventions>(
    rules: &C,
    s: ReaderModel,
    lines: Seq<Option<Seq<char>>>,
) -> ReaderModel
    decreases lines.len(),
{
    if lines.len() == 0 {
        s
    } else {
        transcript::after_line(rules, read_on(rules, s, lines.drop_last()), lines.last())
    }
}

/// A transcript can be read in two parts: what the first part left is all that
/// the second needs.
pub proof fn law_lines_in_two_parts<C: Conventions>(
    rules: &C,
    first: Seq<Option<Seq<char>>>,
    second: Seq<Option<Seq<char>>>,
)
    ensures
        transcript::after_lines(rules, first + second) == read_on(
            rules,
            transcript::after_lines(rules, first),
            second,
        ),
    decreases second.len(),
{
    let all = first + second;
    if second.len() == 0 {
        assert(all =~= first);
    } else {
        assert(all.drop_last() =~= first + second.drop_last());
        law_lines_in_two_parts(rules, first, second.drop_last());
    }
}

/// A blank line in a transcript makes no difference, wherever it stands.
pub proof fn law_blank_lines_make_no_difference<C: Conventions>(
    rules: &C,
    first: Seq<Option<Seq<char>>>,
    blank: Seq<char>,
    second: Seq<Option<Seq<char>>>,
)
    requires
        text::trimmed(blank).len() == 0,
    ensures
        transcript::transcript_of(rules, first.push(Some(blank)) + second)
            == transcript::transcript_of(rules, first + second),
{
    let with_blank = first.push(Some(blank));
    assert(with_blank.drop_last() =~= first);
    assert(transcript::after_lines(rules, with_blank) == transcript::after_lines(rules, first));
    law_lines_in_two_parts(rules, with_blank, second);
    law_lines_in_two_parts(rules, first, second);
}

/// Whether a line tells nothing: a blank one, and a step that says nothing to a
/// reader and has no time, or one that does not count.
pub open spec fn is_idle<C: Conventions>(rules: &C, line: Option<Seq<char>>) -> bool {
    match line {
        None => false,
        Some(line) => text::trimmed(line).len() == 0 || match json::parsed_json(line) {
            Some(value) => {
                &&& row::ignored_types().contains(row::row_of(value).step_type)
                &&& value.str_member("created_at"@) is None || rules.iso_time(
                    row::row_of(value).created_at,
                ) <= 0
            },
            None => false,
        },
    }
}

/// The lines that tell something, in their order.
pub open spec fn telling_lines<C: Conventions>(
    rules: &C,
    lines: Seq<Option<Seq<char>>>,
) -> Seq<Option<Seq<char>>>
    decreases lines.len(),
{
    if lines.len() == 0 {
        Seq::empty()
    } else if is_idle(rules, lines.last()) {
        telling_lines(rules, lines.drop_last())
    } else {
        telling_lines(rules, lines.drop_last()).push(lines.last())
    }
}

/// The types of steps that say nothing to a reader are none of the others.
proof fn lemma_ignored_types(step_type: Seq<char>)
    requires
        row::ignored_types().contains(step_type),
    ensures
        row::kind_of_step(step_type) is Ignored,
{
    reveal_strlit("CONVERSATION_HISTORY");
    reveal_strlit("KNOWLEDGE_ARTIFACTS");
    reveal_strlit("SYSTEM_MESSAGE");
    reveal_strlit("USER_INPUT");
    reveal_strlit("PLANNER_RESPONSE");
    reveal_strlit("CHECKPOINT");
    reveal_strlit("VIEW_FILE");
    reveal_strlit("RUN_COMMAND");
    reveal_strlit("GREP_SEARCH");
    reveal_strlit("LIST_DIRECTORY");
    reveal_strlit("CODE_ACTION");
    reveal_strlit("BROWSER_SUBAGENT");
    reveal_strlit("SEARCH_WEB");
    reveal_strlit("READ_URL_CONTENT");
    reveal_strlit("ASK_QUESTION");
    reveal_strlit("GENERIC");
    reveal_strlit("ERROR_MESSAGE");
    let first = step_type[0];
    assert(step_type.len() == 20 || step_type.len() == 19 || step_type.len() == 14);
    assert(first == 'C' || first == 'K' || first == 'S');
    assert forall|i: int| 0 <= i < row::result_types().len() implies #[trigger]
        row::result_types()[i] != step_type by {
        let other = row::result_types()[i];
        assert(other.len() != step_type.len() || other[0] != first);
    }
}

/// A line that tells nothing changes nothing.
proof fn lemma_idle_line<C: Conventions>(rules: &C, s: ReaderModel, line: Option<Seq<char>>)
    requires
        is_idle(rules, line),
    ensures
        transcript::after_line(rules, s, line) == s,
{
    let said = line->0;
    rules.no_time_is_not_positive();
    if text::trimmed(said).len() > 0 {
        lemma_ignored_types(row::row_of(json::parsed_json(said)->0).step_type);
    }
}

/// Only the lines that tell something count.
proof fn lemma_telling_lines<C: Conventions>(rules: &C, lines: Seq<Option<Seq<char>>>)
    ensures
        transcript::after_lines(rules, lines) == transcript::after_lines(
            rules,
            telling_lines(rules, lines),
        ),
    decreases lines.len(),
{
    if lines.len() > 0 {
        let rest = lines.drop_last();
        lemma_telling_lines(rules, rest);
        if is_idle(rules, lines.last()) {
            lemma_idle_line(rules, transcript::after_lines(rules, rest), lines.last());
        } else {
            let told = telling_lines(rules, rest);
            assert(told.push(lines.last()).drop_last() =~= told);
        }
    }
}

/// Lines that tell nothing make no difference, however many there are and wherever
/// they stand: two transcripts with the same telling lines say the same. A step
/// that says nothing to a reader is such a line where it has no time.
pub proof fn law_idle_lines_make_no_difference<C: Conventions>(
    rules: &C,
    first: Seq<Option<Seq<char>>>,
    second: Seq<Option<Seq<char>>>,
)
    requires
        telling_lines(rules, first) == telling_lines(rules, second),
    ensures
        transcript::transcript_of(rules, first) == transcript::transcript_of(rules, second),
{
    lemma_telling_lines(rules, first);
    lemma_telling_lines(rules, second);
}

/// A line that tells nothing can be put in anywhere, and the transcript says the
/// same.
pub proof fn law_an_idle_line_can_be_put_in<C: Conventions>(
    rules: &C,
    first: Seq<Option<Seq<char>>>,
    idle: Option<Seq<char>>,
    second: Seq<Option<Seq<char>>>,
)
    requires
        is_idle(rules, idle),
    ensures
        transcript::transcript_of(rules, first.push(idle) + second) == transcript::transcript_of(
            rules,
            first + second,
        ),
{
    let with_idle = first.push(idle);
    assert(with_idle.drop_last() =~= first);
    lemma_idle_line(rules, transcript::after_lines(rules, first), idle);
    law_lines_in_two_parts(rules, with_idle, second);
    law_lines_in_two_parts(rules, first, second);
}

/// Whether none of the messages holds an image.
pub open spec fn without_images(messages: Seq<MessageModel>) -> bool {
    forall|i: int| #![trigger messages[i]] 0 <= i < messages.len() ==> messages[i].images.len() == 0
}

/// Reading a line adds no image.
proof fn lemma_line_adds_no_image<C: Conventions>(
    rules: &C,
    s: ReaderModel,
    line: Option<Seq<char>>,
)
    requires
        without_images(s.messages),
    ensures
        without_images(transcript::after_line(rules, s, line).messages),
{
}

/// What has been read holds no image.
proof fn lemma_no_image_so_far<C: Conventions>(rules: &C, lines: Seq<Option<Seq<char>>>)
    ensures
        without_images(transcript::after_lines(rules, lines).messages),
    decreases lines.len(),
{
    if lines.len() > 0 {
        lemma_no_image_so_far(rules, lines.drop_last());
        lemma_line_adds_no_image(
            rules,
            transcript::after_lines(rules, lines.drop_last()),
            lines.last(),
        );
    }
}

/// No message of a transcript holds an image.
pub proof fn law_no_message_has_images<C: Conventions>(rules: &C, lines: Seq<Option<Seq<char>>>)
    ensures
        without_images(transcript::transcript_of(rules, lines).messages),
{
    lemma_no_image_so_far(rules, lines);
    let s = transcript::after_lines(rules, lines);
    assert(without_images(s.flushed(rules).messages));
    let shown = transcript::transcript_of(rules, lines).messages;
    assert forall|i: int| #![trigger shown[i]] 0 <= i < shown.len() implies shown[i].images.len()
        == 0 by {
        assert(shown[i].images == s.flushed(rules).messages[i].images);
    }
}

/// The messages of a transcript are numbered in their order, from zero.
pub proof fn law_messages_are_numbered<C: Conventions>(
    rules: &C,
    lines: Seq<Option<Seq<char>>>,
    i: int,
)
    requires
        0 <= i < transcript::transcript_of(rules, lines).messages.len(),
    ensures
        transcript::transcript_of(rules, lines).messages[i].seq == i,
{
}

/// The messages that reading a session gives are numbered in their order, from
/// zero, whether they come from a transcript or from a summary.
pub proof fn law_read_messages_are_numbered<C: Conventions>(
    adapter: AdapterModel,
    rules: &C,
    r: RefModel,
    source: sessions::SessionSource,
    lines: Seq<Option<Seq<char>>>,
    i: int,
)
    requires
        source.transcript matches Ok(t) ==> t.parsed.deep_view() == transcript::transcript_of(
            rules,
            lines,
        ),
        sessions::outcome_of(adapter, rules, r, source) matches Ok(parts) && 0 <= i
            < parts.1.len(),
    ensures
        sessions::outcome_of(adapter, rules, r, source) matches Ok(parts) && parts.1[i].seq == i,
{
}

/// What a line leaves alone: what was said stays, and so do the title, the
/// document, the directory and the first time once they are known.
proof fn lemma_line_keeps<C: Conventions>(rules: &C, s: ReaderModel, line: Option<Seq<char>>)
    ensures
        ({
            let t = transcript::after_line(rules, s, line);
            &&& s.messages.is_prefix_of(t.messages)
            &&& s.title is Some ==> t.title == s.title
            &&& s.doc_path is Some ==> t.doc_path == s.doc_path
            &&& s.tool_cwd is Some ==> t.tool_cwd == s.tool_cwd
            &&& s.model is Some ==> t.model is Some
            &&& s.first_ts != 0 ==> t.first_ts == s.first_ts
            &&& s.unknown_lines <= t.unknown_lines <= s.unknown_lines + 1
        }),
{
    match line {
        Some(l) => match crate::json::parsed_json(l) {
            Some(value) => {
                lemma_cwd_stays(rules, s.tool_cwd, transcript::calls_in(row::row_of(value)));
            },
            None => {},
        },
        None => {},
    }
    let t = transcript::after_line(rules, s, line);
    assert(s.messages =~= t.messages.subrange(0, s.messages.len() as int));
}

/// A directory that is known stays the one.
proof fn lemma_cwd_stays<C: Conventions>(
    rules: &C,
    known: Option<Seq<char>>,
    calls: Seq<row::ToolCallRowModel>,
)
    ensures
        known is Some ==> transcript::cwd_after(rules, known, calls) == known,
    decreases calls.len(),
{
    if calls.len() > 0 {
        lemma_cwd_stays(rules, known, calls.drop_last());
    }
}

/// More lines take back nothing: the messages so far stay the first ones, and the
/// title, the document, the directory of a tool and the time of the first step
/// stay what they are once they are known.
pub proof fn law_more_lines_take_nothing_back<C: Conventions>(
    rules: &C,
    first: Seq<Option<Seq<char>>>,
    second: Seq<Option<Seq<char>>>,
)
    ensures
        ({
            let s = transcript::after_lines(rules, first);
            let t = transcript::after_lines(rules, first + second);
            &&& s.messages.is_prefix_of(t.messages)
            &&& s.title is Some ==> t.title == s.title
            &&& s.doc_path is Some ==> t.doc_path == s.doc_path
            &&& s.tool_cwd is Some ==> t.tool_cwd == s.tool_cwd
            &&& s.model is Some ==> t.model is Some
            &&& s.first_ts != 0 ==> t.first_ts == s.first_ts
            &&& s.unknown_lines <= t.unknown_lines <= s.unknown_lines + second.len()
        }),
    decreases second.len(),
{
    let all = first + second;
    if second.len() == 0 {
        assert(all =~= first);
        let s = transcript::after_lines(rules, first);
        assert(s.messages =~= s.messages.subrange(0, s.messages.len() as int));
    } else {
        assert(all.drop_last() =~= first + second.drop_last());
        law_more_lines_take_nothing_back(rules, first, second.drop_last());
        let s = transcript::after_lines(rules, first);
        let m = transcript::after_lines(rules, first + second.drop_last());
        lemma_line_keeps(rules, m, second.last());
        let t = transcript::after_lines(rules, all);
        assert(s.messages =~= t.messages.subrange(0, s.messages.len() as int)) by {
            assert(m.messages == t.messages.subrange(0, m.messages.len() as int));
            assert(s.messages == m.messages.subrange(0, s.messages.len() as int));
        }
    }
}

/// A transcript has a first time exactly where it has a last one, and neither is
/// negative. So a session shows two times of its transcript, or none.
pub proof fn law_times_come_together<C: Conventions>(rules: &C, lines: Seq<Option<Seq<char>>>)
    ensures
        ({
            let parsed = transcript::transcript_of(rules, lines);
            &&& parsed.created_at >= 0
            &&& parsed.updated_at >= 0
            &&& (parsed.created_at > 0 <==> parsed.updated_at > 0)
        }),
    decreases lines.len(),
{
    if lines.len() > 0 {
        law_times_come_together(rules, lines.drop_last());
    }
}

/// The lines that say nothing known are counted, each once.
pub proof fn law_unknown_lines_are_lines<C: Conventions>(rules: &C, lines: Seq<Option<Seq<char>>>)
    ensures
        transcript::transcript_of(rules, lines).unknown_lines == transcript::unknown_count(lines),
        transcript::unknown_count(lines) <= lines.len(),
{
    transcript::lemma_unknown_lines(rules, lines);
}

/// Writing out an answer a second time adds nothing.
pub proof fn law_flushing_twice_is_flushing_once<C: Conventions>(rules: &C, s: ReaderModel)
    ensures
        s.flushed(rules).flushed(rules) == s.flushed(rules),
{
}

/// Whether an answer is still being gathered: what was said and thought is still
/// there, with more behind it perhaps, and so is each call.
pub open spec fn goes_on(before: PendingModel, after: PendingModel) -> bool {
    &&& before.content.is_prefix_of(after.content)
    &&& before.thinking matches Some(t) ==> (after.thinking matches Some(u) && t.is_prefix_of(u))
    &&& before.tool_calls.len() <= after.tool_calls.len()
    &&& forall|i: int|
        #![trigger after.tool_calls[i]]
        0 <= i < before.tool_calls.len() ==> same_call(before.tool_calls[i], after.tool_calls[i])
}

/// Whether a call is the same as before, answered perhaps where it was not.
pub open spec fn same_call(before: ToolCallModel, after: ToolCallModel) -> bool {
    &&& after.id == before.id
    &&& after.name == before.name
    &&& after.input_preview == before.input_preview
    &&& after.input == before.input
    &&& before.output is Some ==> after == before
}

/// What `last_open` finds is a call that has not been answered, and each call
/// behind it has been.
pub proof fn law_last_open_is_the_last(calls: Seq<ToolCallModel>)
    ensures
        match transcript::last_open(calls) {
            Some(i) => {
                &&& 0 <= i < calls.len()
                &&& calls[i].output is None
                &&& forall|j: int|
                    #![trigger calls[j]]
                    i < j < calls.len() ==> calls[j].output is Some
            },
            None => forall|j: int|
                #![trigger calls[j]]
                0 <= j < calls.len() ==> calls[j].output is Some,
        },
    decreases calls.len(),
{
    if calls.len() > 0 && !(calls.last().output is None) {
        let rest = calls.drop_last();
        law_last_open_is_the_last(rest);
        assert forall|j: int| #![trigger calls[j]] 0 <= j < rest.len() implies calls[j]
            == rest[j] by {}
    }
}

/// An answer that is being gathered is never lost: each line either leaves it to
/// be gathered further, or writes it out as the next message.
pub proof fn law_no_answer_is_lost<C: Conventions>(
    rules: &C,
    s: ReaderModel,
    line: Option<Seq<char>>,
)
    ensures
        ({
            let t = transcript::after_line(rules, s, line);
            ||| goes_on(s.pending, t.pending)
            ||| t.messages.len() > s.messages.len() && t.messages[s.messages.len() as int]
                == pending::answer_message(rules, s.pending)
        }),
{
    let t = transcript::after_line(rules, s, line);
    let before = s.pending;
    law_last_open_is_the_last(before.tool_calls);
    assert(before.content =~= before.content.subrange(0, before.content.len() as int));
    assert(before.thinking matches Some(x) ==> x =~= x.subrange(0, x.len() as int));
    assert(goes_on(before, before));
    match line {
        Some(l) => match crate::json::parsed_json(l) {
            Some(value) => {
                let step = row::row_of(value);
                if row::kind_of_step(step.step_type) == StepKind::PlannerResponse
                    && text::trimmed(l).len() > 0 {
                    assert(before.content =~= t.pending.content.subrange(
                        0,
                        before.content.len() as int,
                    ));
                    if before.thinking is Some {
                        let u = t.pending.thinking->0;
                        assert(before.thinking->0 =~= u.subrange(
                            0,
                            before.thinking->0.len() as int,
                        ));
                    }
                    assert(goes_on(before, t.pending));
                }
            },
            None => {},
        },
        None => {},
    }
}

/// The report of a tool answers the last call that has none, and leaves the other
/// calls and the messages as they are.
pub proof fn law_a_report_answers_one_call<C: Conventions>(
    rules: &C,
    s: ReaderModel,
    step: RowModel,
)
    requires
        row::kind_of_step(step.step_type) == StepKind::ToolResult,
        transcript::last_open(s.pending.tool_calls) is Some,
    ensures
        ({
            let t = transcript::after_row(rules, s, step);
            let i = transcript::last_open(s.pending.tool_calls)->0;
            let said = text::trimmed(row::or_empty(step.content));
            &&& t.messages == s.messages
            &&& t.pending.tool_calls.len() == s.pending.tool_calls.len()
            &&& t.pending.tool_calls[i].output == Some(
                rules.clipped(said, rules.tool_limit()).0,
            )
            &&& t.pending.tool_calls[i].is_error == transcript::is_failure(step)
            &&& forall|j: int|
                #![trigger t.pending.tool_calls[j]]
                0 <= j < s.pending.tool_calls.len() && j != i ==> t.pending.tool_calls[j]
                    == s.pending.tool_calls[j]
        }),
{
    law_last_open_is_the_last(s.pending.tool_calls);
}

/// The opening tag of a request, and the closing one.
pub open spec fn tagged(request: Seq<char>, rest: Seq<char>) -> Seq<char> {
    "<USER_REQUEST>"@ + request + "</USER_REQUEST>"@ + rest
}

/// A request that stands between the tags is read back, without the white space
/// at its ends, whatever follows it.
pub proof fn law_a_tagged_request_is_read_back(request: Seq<char>, rest: Seq<char>)
    requires
        text::find(request, "</USER_REQUEST>"@) is None,
    ensures
        request::request_text(tagged(request, rest)) == text::trimmed(request),
{
    let open = "<USER_REQUEST>"@;
    let close = "</USER_REQUEST>"@;
    let raw = tagged(request, rest);
    reveal_strlit("<USER_REQUEST>");
    reveal_strlit("</USER_REQUEST>");
    assert(raw.subrange(0, 0 + open.len() as int) =~= open);
    assert(text::occurs_at(raw, open, 0));
    assert(text::find(raw, open) == Some(0int));
    let after = raw.skip(open.len() as int);
    assert(after =~= request + close + rest);
    let n = request.len() as int;
    assert(after.subrange(n, n + close.len()) =~= close);
    text::lemma_find_from(after, close, 0);
    text::lemma_find_from(request, close, 0);
    assert forall|j: int| 0 <= j < n implies !text::occurs_at(after, close, j) by {
        if text::occurs_at(after, close, j) {
            if j + close.len() <= n {
                assert(request.subrange(j, j + close.len()) =~= after.subrange(
                    j,
                    j + close.len(),
                ));
                assert(text::occurs_at(request, close, j));
            } else {
                assert(after.subrange(j, j + close.len())[n - j] == after[n]);
                assert(after[n] == '<');
                assert(close[n - j] == '<');
            }
        }
    }
    assert(text::occurs_at(after, close, n));
    assert(text::find(after, close) == Some(n));
    assert(after.take(n) =~= request);
}

/// Each transcript that is listed is that of an entry, and each entry that has a
/// transcript is listed.
pub proof fn lemma_ide_refs(separator: char, entries: Seq<EntryModel>)
    ensures
        forall|i: int|
            #![trigger entries[i]]
            0 <= i < entries.len() && sessions::entry_ref(separator, entries[i]) is Some
                ==> sessions::has_id(sessions::ide_refs(separator, entries), entries[i].name),
        forall|k: int|
            #![trigger sessions::ide_refs(separator, entries)[k]]
            0 <= k < sessions::ide_refs(separator, entries).len() ==> exists|i: int|
                #![trigger entries[i]]
                0 <= i < entries.len() && sessions::entry_ref(separator, entries[i]) == Some(
                    sessions::ide_refs(separator, entries)[k],
                ),
    decreases entries.len(),
{
    if entries.len() > 0 {
        let rest = entries.drop_last();
        let last = entries.last();
        let done = sessions::ide_refs(separator, rest);
        let all = sessions::ide_refs(separator, entries);
        lemma_ide_refs(separator, rest);
        assert forall|k: int| #![trigger all[k]] 0 <= k < all.len() implies exists|i: int|
            #![trigger entries[i]]
            0 <= i < entries.len() && sessions::entry_ref(separator, entries[i]) == Some(all[k]) by {
            if k < done.len() {
                assert(all[k] == done[k]);
                let i = choose|i: int|
                    #![trigger rest[i]]
                    0 <= i < rest.len() && sessions::entry_ref(separator, rest[i]) == Some(done[k]);
                assert(entries[i] == rest[i]);
            } else {
                assert(entries[entries.len() - 1] == last);
            }
        }
        assert forall|i: int|
            #![trigger entries[i]]
            0 <= i < entries.len() && sessions::entry_ref(
                separator,
                entries[i],
            ) is Some implies sessions::has_id(all, entries[i].name) by {
            if i < rest.len() {
                assert(rest[i] == entries[i]);
                assert(sessions::has_id(done, rest[i].name));
                let k = choose|k: int|
                    #![trigger done[k]]
                    0 <= k < done.len() && done[k].native_id == rest[i].name;
                assert(all[k] == done[k]);
            } else {
                assert(all[all.len() - 1].native_id == entries[i].name);
            }
        }
    }
}

/// Each summary that is listed is one of the store of a conversation that there
/// is no transcript of, and each such summary is listed.
proof fn lemma_cli_refs(db: Seq<char>, rows: Seq<AgRowModel>, transcripts: Seq<RefModel>)
    ensures
        forall|k: int|
            #![trigger sessions::cli_refs(db, rows, transcripts)[k]]
            0 <= k < sessions::cli_refs(db, rows, transcripts).len() ==> {
                &&& !sessions::has_id(
                    transcripts,
                    sessions::cli_refs(db, rows, transcripts)[k].native_id,
                )
                &&& exists|i: int|
                    #![trigger rows[i]]
                    0 <= i < rows.len() && sessions::cli_refs(db, rows, transcripts)[k]
                        == sessions::summary_ref(db, rows[i])
            },
        forall|i: int|
            #![trigger rows[i]]
            0 <= i < rows.len() && !sessions::has_id(transcripts, rows[i].id) ==> sessions::has_id(
                sessions::cli_refs(db, rows, transcripts),
                rows[i].id,
            ),
    decreases rows.len(),
{
    if rows.len() > 0 {
        let rest = rows.drop_last();
        let last = rows.last();
        let done = sessions::cli_refs(db, rest, transcripts);
        let all = sessions::cli_refs(db, rows, transcripts);
        lemma_cli_refs(db, rest, transcripts);
        assert forall|k: int| #![trigger all[k]] 0 <= k < all.len() implies !sessions::has_id(
            transcripts,
            all[k].native_id,
        ) && exists|i: int|
            #![trigger rows[i]]
            0 <= i < rows.len() && all[k] == sessions::summary_ref(db, rows[i]) by {
            if k < done.len() {
                assert(all[k] == done[k]);
                let i = choose|i: int|
                    #![trigger rest[i]]
                    0 <= i < rest.len() && done[k] == sessions::summary_ref(db, rest[i]);
                assert(rows[i] == rest[i]);
            } else {
                assert(rows[rows.len() - 1] == last);
            }
        }
        assert forall|i: int|
            #![trigger rows[i]]
            0 <= i < rows.len() && !sessions::has_id(
                transcripts,
                rows[i].id,
            ) implies sessions::has_id(all, rows[i].id) by {
            if i < rest.len() {
                assert(rest[i] == rows[i]);
                assert(sessions::has_id(done, rest[i].id));
                let k = choose|k: int|
                    #![trigger done[k]]
                    0 <= k < done.len() && done[k].native_id == rest[i].id;
                assert(all[k] == done[k]);
            } else {
                assert(all[all.len() - 1].native_id == rows[i].id);
            }
        }
    }
}

/// No conversation is listed both as a transcript and as a summary: a summary is
/// only listed where the IDE has no transcript of the conversation.
pub proof fn law_transcripts_come_before_summaries(
    adapter: AdapterModel,
    entries: Seq<EntryModel>,
    rows: Option<Seq<AgRowModel>>,
    i: int,
    k: int,
)
    requires
        ({
            let transcripts = sessions::listed_transcripts(adapter, entries);
            0 <= i < transcripts.len() && transcripts.len() <= k < sessions::listed(
                adapter,
                entries,
                rows,
            ).len()
        }),
    ensures
        sessions::listed(adapter, entries, rows)[i].native_id != sessions::listed(
            adapter,
            entries,
            rows,
        )[k].native_id,
{
    let transcripts = sessions::listed_transcripts(adapter, entries);
    let summaries = sessions::listed_summaries(adapter, rows, transcripts);
    match (adapter.cli_db, rows) {
        (Some(db), Some(list)) => {
            lemma_cli_refs(db, list, transcripts);
        },
        _ => {},
    }
    assert(sessions::listed(adapter, entries, rows)[i] == transcripts[i]);
    assert(sessions::listed(adapter, entries, rows)[k] == summaries[k - transcripts.len()]);
    assert(!sessions::has_id(transcripts, summaries[k - transcripts.len()].native_id));
}

/// Every conversation is listed: each that has a transcript below the directory
/// of conversations, and each that has a summary in the store.
pub proof fn law_every_conversation_is_listed(
    adapter: AdapterModel,
    entries: Seq<EntryModel>,
    rows: Seq<AgRowModel>,
)
    requires
        adapter.brain_root is Some,
        adapter.cli_db is Some,
    ensures
        forall|i: int|
            #![trigger entries[i]]
            0 <= i < entries.len() && sessions::entry_ref(adapter.separator, entries[i]) is Some
                ==> sessions::has_id(
                sessions::listed(adapter, entries, Some(rows)),
                entries[i].name,
            ),
        forall|i: int|
            #![trigger rows[i]]
            0 <= i < rows.len() ==> sessions::has_id(
                sessions::listed(adapter, entries, Some(rows)),
                rows[i].id,
            ),
{
    let db = adapter.cli_db->0;
    let transcripts = sessions::listed_transcripts(adapter, entries);
    let summaries = sessions::cli_refs(db, rows, transcripts);
    let all = sessions::listed(adapter, entries, Some(rows));
    lemma_ide_refs(adapter.separator, entries);
    lemma_cli_refs(db, rows, transcripts);
    assert(all =~= transcripts + summaries);
    assert forall|id: Seq<char>|
        #![trigger sessions::has_id(all, id)]
        sessions::has_id(transcripts, id) || sessions::has_id(
            summaries,
            id,
        ) implies sessions::has_id(all, id) by {
        if sessions::has_id(transcripts, id) {
            let k = choose|k: int|
                #![trigger transcripts[k]]
                0 <= k < transcripts.len() && transcripts[k].native_id == id;
            assert(all[k].native_id == id);
        } else {
            let k = choose|k: int|
                #![trigger summaries[k]]
                0 <= k < summaries.len() && summaries[k].native_id == id;
            assert(all[transcripts.len() + k].native_id == id);
        }
    }
}

/// Whether no two entries have one name.
pub open spec fn distinct_names(entries: Seq<EntryModel>) -> bool {
    forall|i: int, j: int|
        #![trigger entries[i], entries[j]]
        0 <= i < j < entries.len() ==> entries[i].name != entries[j].name
}

/// Whether no two references are to one conversation.
pub open spec fn distinct_sessions(refs: Seq<RefModel>) -> bool {
    forall|i: int, j: int|
        #![trigger refs[i], refs[j]]
        0 <= i < j < refs.len() ==> refs[i].native_id != refs[j].native_id
}

/// A reference more to a conversation that there is none of yet.
proof fn lemma_one_session_more(refs: Seq<RefModel>, r: RefModel)
    requires
        distinct_sessions(refs),
        !sessions::has_id(refs, r.native_id),
    ensures
        distinct_sessions(refs.push(r)),
{
    let all = refs.push(r);
    assert forall|i: int, j: int|
        #![trigger all[i], all[j]]
        0 <= i < j < all.len() implies all[i].native_id != all[j].native_id by {
        assert(all[i] == refs[i]);
        if j < refs.len() {
            assert(all[j] == refs[j]);
        }
    }
}

/// Entries with different names give references to different conversations.
proof fn lemma_distinct_transcripts(separator: char, entries: Seq<EntryModel>)
    requires
        distinct_names(entries),
    ensures
        distinct_sessions(sessions::ide_refs(separator, entries)),
    decreases entries.len(),
{
    if entries.len() > 0 {
        let rest = entries.drop_last();
        let last = entries.last();
        let done = sessions::ide_refs(separator, rest);
        assert forall|i: int, j: int|
            #![trigger rest[i], rest[j]]
            0 <= i < j < rest.len() implies rest[i].name != rest[j].name by {
            assert(rest[i] == entries[i] && rest[j] == entries[j]);
        }
        lemma_distinct_transcripts(separator, rest);
        match sessions::entry_ref(separator, last) {
            Some(r) => {
                if sessions::has_id(done, r.native_id) {
                    let k = choose|k: int|
                        #![trigger done[k]]
                        0 <= k < done.len() && done[k].native_id == r.native_id;
                    lemma_ide_refs(separator, rest);
                    let i = choose|i: int|
                        #![trigger rest[i]]
                        0 <= i < rest.len() && sessions::entry_ref(separator, rest[i]) == Some(
                            done[k],
                        );
                    assert(entries[i] == rest[i]);
                    assert(entries[entries.len() - 1] == last);
                }
                lemma_one_session_more(done, r);
            },
            None => {},
        }
    }
}

/// Summaries with different identifiers give references to different
/// conversations.
proof fn lemma_distinct_summaries(
    db: Seq<char>,
    rows: Seq<AgRowModel>,
    transcripts: Seq<RefModel>,
)
    requires
        distinct_ids(rows),
    ensures
        distinct_sessions(sessions::cli_refs(db, rows, transcripts)),
    decreases rows.len(),
{
    if rows.len() > 0 {
        let rest = rows.drop_last();
        let last = rows.last();
        let done = sessions::cli_refs(db, rest, transcripts);
        assert forall|i: int, j: int|
            #![trigger rest[i], rest[j]]
            0 <= i < j < rest.len() implies rest[i].id != rest[j].id by {
            assert(rest[i] == rows[i] && rest[j] == rows[j]);
        }
        lemma_distinct_summaries(db, rest, transcripts);
        if sessions::has_id(done, last.id) {
            let k = choose|k: int|
                #![trigger done[k]]
                0 <= k < done.len() && done[k].native_id == last.id;
            lemma_cli_refs(db, rest, transcripts);
            let i = choose|i: int|
                #![trigger rest[i]]
                0 <= i < rest.len() && done[k] == sessions::summary_ref(db, rest[i]);
            assert(rows[i] == rest[i]);
            assert(rows[rows.len() - 1] == last);
        }
        if !sessions::has_id(transcripts, last.id) {
            lemma_one_session_more(done, sessions::summary_ref(db, last));
        }
    }
}

/// No conversation is listed twice, where no two entries have one name and no two
/// summaries one identifier: one that has a transcript and a summary is listed
/// once.
pub proof fn law_no_conversation_is_listed_twice(
    adapter: AdapterModel,
    entries: Seq<EntryModel>,
    rows: Option<Seq<AgRowModel>>,
)
    requires
        distinct_names(entries),
        rows matches Some(list) ==> distinct_ids(list),
    ensures
        distinct_sessions(sessions::listed(adapter, entries, rows)),
{
    let transcripts = sessions::listed_transcripts(adapter, entries);
    let summaries = sessions::listed_summaries(adapter, rows, transcripts);
    let all = sessions::listed(adapter, entries, rows);
    lemma_distinct_transcripts(adapter.separator, entries);
    match (adapter.cli_db, rows) {
        (Some(db), Some(list)) => {
            lemma_distinct_summaries(db, list, transcripts);
        },
        _ => {},
    }
    assert forall|i: int, j: int|
        #![trigger all[i], all[j]]
        0 <= i < j < all.len() implies all[i].native_id != all[j].native_id by {
        let n = transcripts.len() as int;
        if j < n {
            assert(all[i] == transcripts[i] && all[j] == transcripts[j]);
        } else if i < n {
            law_transcripts_come_before_summaries(adapter, entries, rows, i, j);
        } else {
            assert(all[i] == summaries[i - n] && all[j] == summaries[j - n]);
        }
    }
}

/// A conversation that the IDE has a transcript of is listed as that transcript,
/// and one that it has none of, or an empty one, as its summary.
pub proof fn law_a_conversation_is_listed_as_what_there_is(
    adapter: AdapterModel,
    entries: Seq<EntryModel>,
    rows: Seq<AgRowModel>,
    row: int,
    k: int,
)
    requires
        adapter.brain_root is Some,
        adapter.cli_db is Some,
        0 <= row < rows.len(),
        distinct_ids(rows),
        0 <= k < sessions::listed(adapter, entries, Some(rows)).len(),
        sessions::listed(adapter, entries, Some(rows))[k].native_id == rows[row].id,
    ensures
        ({
            let r = sessions::listed(adapter, entries, Some(rows))[k];
            let has_transcript = exists|i: int|
                #![trigger entries[i]]
                0 <= i < entries.len() && entries[i].name == rows[row].id && sessions::entry_ref(
                    adapter.separator,
                    entries[i],
                ) is Some;
            if has_transcript {
                exists|i: int|
                    #![trigger entries[i]]
                    0 <= i < entries.len() && sessions::entry_ref(adapter.separator, entries[i])
                        == Some(r)
            } else {
                r == sessions::summary_ref(adapter.cli_db->0, rows[row])
            }
        }),
{
    let db = adapter.cli_db->0;
    let transcripts = sessions::listed_transcripts(adapter, entries);
    let summaries = sessions::cli_refs(db, rows, transcripts);
    let r = sessions::listed(adapter, entries, Some(rows))[k];
    let n = transcripts.len() as int;
    lemma_ide_refs(adapter.separator, entries);
    lemma_cli_refs(db, rows, transcripts);
    if k < n {
        assert(r == transcripts[k]);
        let i = choose|i: int|
            #![trigger entries[i]]
            0 <= i < entries.len() && sessions::entry_ref(adapter.separator, entries[i]) == Some(r);
        assert(entries[i].name == rows[row].id);
    } else {
        assert(r == summaries[k - n]);
        let j = choose|j: int|
            #![trigger rows[j]]
            0 <= j < rows.len() && r == sessions::summary_ref(db, rows[j]);
        if j < row {
            assert(rows[j].id != rows[row].id);
        } else if row < j {
            assert(rows[row].id != rows[j].id);
        }
        assert(!sessions::has_id(transcripts, rows[row].id));
    }
}

/// A summary that is listed is read from the store, and found there.
pub proof fn law_a_listed_summary_can_be_read<C: Conventions>(
    adapter: AdapterModel,
    rules: &C,
    entries: Seq<EntryModel>,
    source: sessions::SessionSource,
    k: int,
)
    requires
        ({
            let transcripts = sessions::listed_transcripts(adapter, entries);
            transcripts.len() <= k < sessions::listed(
                adapter,
                entries,
                source.rows.deep_view(),
            ).len()
        }),
    ensures
        ({
            let r = sessions::listed(adapter, entries, source.rows.deep_view())[k];
            &&& sessions::is_virtual(r)
            &&& sessions::outcome_of(adapter, rules, r, source) is Ok
        }),
{
    let transcripts = sessions::listed_transcripts(adapter, entries);
    let all = sessions::listed(adapter, entries, source.rows.deep_view());
    let rows = source.rows.deep_view()->0;
    let db = adapter.cli_db->0;
    lemma_cli_refs(db, rows, transcripts);
    let n = k - transcripts.len();
    let r = sessions::cli_refs(db, rows, transcripts)[n];
    assert(all[k] == r);
    let i = choose|i: int|
        #![trigger rows[i]]
        0 <= i < rows.len() && r == sessions::summary_ref(db, rows[i]);
    reveal_strlit("#");
    assert(r.file_path[db.len() as int] == '#');
    assert(r.file_path.contains('#'));
    lemma_first_row(rows, r.native_id);
    assert(rows[i].id == r.native_id);
}

/// What `first_row` finds is the first summary with the identifier.
pub proof fn lemma_first_row(rows: Seq<AgRowModel>, id: Seq<char>)
    ensures
        match sessions::first_row(rows, id) {
            Some(i) => {
                &&& 0 <= i < rows.len()
                &&& rows[i].id == id
                &&& forall|j: int| #![trigger rows[j]] 0 <= j < i ==> rows[j].id != id
            },
            None => forall|j: int| #![trigger rows[j]] 0 <= j < rows.len() ==> rows[j].id != id,
        },
    decreases rows.len(),
{
    if rows.len() > 0 {
        let rest = rows.drop_last();
        lemma_first_row(rest, id);
        assert forall|j: int| #![trigger rows[j]] 0 <= j < rest.len() implies rows[j]
            == rest[j] by {}
    }
}

/// What `last_row` finds is the last summary with the identifier.
pub proof fn lemma_last_row(rows: Seq<AgRowModel>, id: Seq<char>)
    ensures
        match sessions::last_row(rows, id) {
            Some(i) => {
                &&& 0 <= i < rows.len()
                &&& rows[i].id == id
                &&& forall|j: int| #![trigger rows[j]] i < j < rows.len() ==> rows[j].id != id
            },
            None => forall|j: int| #![trigger rows[j]] 0 <= j < rows.len() ==> rows[j].id != id,
        },
    decreases rows.len(),
{
    if rows.len() > 0 && rows.last().id != id {
        let rest = rows.drop_last();
        lemma_last_row(rest, id);
        assert forall|j: int| #![trigger rows[j]] 0 <= j < rest.len() implies rows[j]
            == rest[j] by {}
    }
}

/// What is shown of a reference before reading, where anything is.
#[verifier::opaque]
spec fn quick_entry<C: Conventions>(rules: &C, r: RefModel, rows: Seq<AgRowModel>) -> Option<
    crate::models::MetaModel,
> {
    match sessions::last_row(rows, r.native_id) {
        Some(i) => if sessions::is_virtual(r) {
            Some(sessions::cli_meta(rules, r, rows[i]))
        } else {
            None
        },
        None => None,
    }
}

/// A path is shown as the last reference with it of which anything is shown.
proof fn lemma_quick_entries<C: Conventions>(
    rules: &C,
    refs: Seq<RefModel>,
    rows: Seq<AgRowModel>,
    path: Seq<char>,
)
    ensures
        match sessions::quick_metas(rules, refs, rows).get(path) {
            Some(meta) => exists|i: int|
                #![trigger refs[i]]
                0 <= i < refs.len() && refs[i].file_path == path && quick_entry(
                    rules,
                    refs[i],
                    rows,
                ) == Some(meta) && forall|j: int|
                    #![trigger refs[j]]
                    i < j < refs.len() && refs[j].file_path == path ==> quick_entry(
                        rules,
                        refs[j],
                        rows,
                    ) is None,
            None => forall|i: int|
                #![trigger refs[i]]
                0 <= i < refs.len() && refs[i].file_path == path ==> quick_entry(
                    rules,
                    refs[i],
                    rows,
                ) is None,
        },
    decreases refs.len(),
{
    if refs.len() > 0 {
        let rest = refs.drop_last();
        let r = refs.last();
        let done = sessions::quick_metas(rules, rest, rows);
        let quick = sessions::quick_metas(rules, refs, rows);
        lemma_quick_entries(rules, rest, rows, path);
        assert(quick == match quick_entry(rules, r, rows) {
            Some(meta) => done.insert(r.file_path, meta),
            None => done,
        }) by {
            reveal(quick_entry);
        }
        assert(refs[refs.len() - 1] == r);
        if !(r.file_path == path && quick_entry(rules, r, rows) is Some) {
            assert(quick.get(path) == done.get(path));
            assert forall|j: int| #![trigger refs[j]] 0 <= j < rest.len() implies refs[j]
                == rest[j] by {}
            match done.get(path) {
                Some(meta) => {
                    let i = choose|i: int|
                        #![trigger rest[i]]
                        0 <= i < rest.len() && rest[i].file_path == path && quick_entry(
                            rules,
                            rest[i],
                            rows,
                        ) == Some(meta) && forall|j: int|
                            #![trigger rest[j]]
                            i < j < rest.len() && rest[j].file_path == path ==> quick_entry(
                                rules,
                                rest[j],
                                rows,
                            ) is None;
                    assert(refs[i] == rest[i]);
                    assert forall|j: int|
                        #![trigger refs[j]]
                        i < j < refs.len() && refs[j].file_path == path implies quick_entry(
                        rules,
                        refs[j],
                        rows,
                    ) is None by {
                        if j < rest.len() {
                            assert(refs[j] == rest[j]);
                        }
                    }
                },
                None => {
                    assert forall|j: int|
                        #![trigger refs[j]]
                        0 <= j < refs.len() && refs[j].file_path == path implies quick_entry(
                        rules,
                        refs[j],
                        rows,
                    ) is None by {
                        if j < rest.len() {
                            assert(refs[j] == rest[j]);
                        }
                    }
                },
            }
        }
    }
}

/// What is shown of a reference before reading is what reading shows of it, where
/// no two summaries have one identifier.
proof fn lemma_quick_entry_as_read<C: Conventions>(
    adapter: AdapterModel,
    rules: &C,
    r: RefModel,
    source: sessions::SessionSource,
)
    requires
        source.rows is Some,
        distinct_ids(source.rows.deep_view()->0),
    ensures
        match quick_entry(rules, r, source.rows.deep_view()->0) {
            Some(meta) => read_from_store(adapter, rules, r, source) == Some(meta),
            None => read_from_store(adapter, rules, r, source) is None,
        },
{
    reveal(quick_entry);
    let rows = source.rows.deep_view()->0;
    lemma_first_row(rows, r.native_id);
    lemma_last_row(rows, r.native_id);
}

/// Whether no two summaries have one identifier.
pub open spec fn distinct_ids(rows: Seq<AgRowModel>) -> bool {
    forall|i: int, j: int|
        #![trigger rows[i], rows[j]]
        0 <= i < j < rows.len() ==> rows[i].id != rows[j].id
}

/// What reading shows of a reference to a summary, where it is one that can be
/// read.
pub open spec fn read_from_store<C: Conventions>(
    adapter: AdapterModel,
    rules: &C,
    r: RefModel,
    source: sessions::SessionSource,
) -> Option<crate::models::MetaModel> {
    match sessions::outcome_of(adapter, rules, r, source) {
        Ok(parts) => if sessions::is_virtual(r) {
            Some(parts.0)
        } else {
            None
        },
        Err(_) => None,
    }
}

/// What is shown of summaries before they are read is what is shown of them once
/// they are, where no two summaries have one identifier: a path is shown as the
/// last reference with it that can be read from the store, and not at all where
/// there is none.
pub proof fn law_quick_meta_agrees_with_reading<C: Conventions>(
    adapter: AdapterModel,
    rules: &C,
    refs: Seq<RefModel>,
    source: sessions::SessionSource,
    path: Seq<char>,
)
    requires
        source.rows is Some,
        distinct_ids(source.rows.deep_view()->0),
    ensures
        match sessions::quick_metas(rules, refs, source.rows.deep_view()->0).get(path) {
            Some(meta) => exists|i: int|
                #![trigger refs[i]]
                0 <= i < refs.len() && refs[i].file_path == path && read_from_store(
                    adapter,
                    rules,
                    refs[i],
                    source,
                ) == Some(meta) && forall|j: int|
                    #![trigger refs[j]]
                    i < j < refs.len() && refs[j].file_path == path ==> read_from_store(
                        adapter,
                        rules,
                        refs[j],
                        source,
                    ) is None,
            None => forall|i: int|
                #![trigger refs[i]]
                0 <= i < refs.len() && refs[i].file_path == path ==> read_from_store(
                    adapter,
                    rules,
                    refs[i],
                    source,
                ) is None,
        },
{
    let rows = source.rows.deep_view()->0;
    lemma_quick_entries(rules, refs, rows, path);
    assert forall|i: int| #![trigger refs[i]] 0 <= i < refs.len() implies quick_entry(
        rules,
        refs[i],
        rows,
    ) == read_from_store(adapter, rules, refs[i], source) by {
        lemma_quick_entry_as_read(adapter, rules, refs[i], source);
    }
}

/// Squeezing adds no number sign.
proof fn lemma_squeezed_without_mark(s: Seq<char>)
    requires
        !s.contains('#'),
    ensures
        !paths::squeezed(s).contains('#'),
    decreases s.len(),
{
    if s.len() > 0 {
        let rest = s.drop_last();
        assert(s[s.len() - 1] != '#');
        if rest.contains('#') {
            let k = choose|k: int| 0 <= k < rest.len() && rest[k] == '#';
            assert(s[k] == '#');
        }
        lemma_squeezed_without_mark(rest);
        let kept = paths::squeezed(rest);
        let q = paths::squeezed(s);
        if q.contains('#') {
            let k = choose|k: int| 0 <= k < q.len() && q[k] == '#';
            if k < kept.len() {
                assert(kept[k] == '#');
            }
        }
    }
}

/// A path and a name below it hold no number sign where neither of them does, nor
/// the separator is one.
proof fn lemma_joined_without_mark(separator: char, base: Seq<char>, name: Seq<char>)
    requires
        separator != '#',
        !base.contains('#'),
        !name.contains('#'),
    ensures
        !layout::joined_path(separator, base, name).contains('#'),
{
    let whole = layout::joined_path(separator, base, name);
    let at = paths::prefix_end(separator, base);
    let rest = paths::behind_prefix(separator, base);
    paths::lemma_prefix_end(separator, base);
    if rest.contains('#') {
        let k = choose|k: int| 0 <= k < rest.len() && rest[k] == '#';
        assert(rest[k] == base[at + k]);
    }
    lemma_squeezed_without_mark(rest);
    if whole.contains('#') {
        let k = choose|k: int| 0 <= k < whole.len() && whole[k] == '#';
        let start = whole.len() - name.len();
        if k >= start {
            assert(name[k - start] == '#');
        } else if paths::is_verbatim(separator, base) {
            let q = paths::squeezed(rest);
            if k < at {
                assert(base[k] == '#');
            } else if k < at + q.len() {
                assert(q[k - at] == '#');
            }
        } else if k < base.len() {
            assert(base[k] == '#');
        }
    }
}

/// A transcript that is listed is read as one, and not looked for in the store,
/// unless there is a number sign in the path of its directory.
pub proof fn law_a_listed_transcript_is_read_as_one(separator: char, entry: EntryModel)
    requires
        separator != '#',
        !entry.path.contains('#'),
    ensures
        sessions::entry_ref(separator, entry) matches Some(r) ==> !sessions::is_virtual(r),
{
    reveal_strlit(".system_generated");
    reveal_strlit("logs");
    reveal_strlit("transcript.jsonl");
    let generated = layout::joined_path(separator, entry.path, ".system_generated"@);
    let logs = layout::joined_path(separator, generated, "logs"@);
    lemma_joined_without_mark(separator, entry.path, ".system_generated"@);
    lemma_joined_without_mark(separator, generated, "logs"@);
    lemma_joined_without_mark(separator, logs, "transcript.jsonl"@);
}

/// No session is without a title, unless the title of those that have none is
/// empty.
pub proof fn law_every_session_has_a_title<C: Conventions>(
    adapter: AdapterModel,
    rules: &C,
    r: RefModel,
    source: sessions::SessionSource,
)
    requires
        rules.no_title().len() > 0,
    ensures
        sessions::outcome_of(adapter, rules, r, source) matches Ok(parts) ==> parts.0.title.len()
            > 0,
{
}

/// The directory that is found for a path is one of the list that the path lies
/// under, and each other of those begins it; none is found exactly where the path
/// lies under none. So the order of the list only decides between directories that
/// are equal but for their separators.
pub proof fn law_the_longest_directory_is_found(dirs: Seq<Seq<char>>, path: Seq<char>)
    ensures
        match projects::longest_dir(dirs, path) {
            Some(k) => {
                &&& 0 <= k < dirs.len()
                &&& projects::begins_with_dir(path, dirs[k])
                &&& forall|i: int|
                    #![trigger dirs[i]]
                    0 <= i < dirs.len() && projects::begins_with_dir(path, dirs[i])
                        ==> dirs[i].len() <= dirs[k].len() && projects::begins_with_dir(
                        dirs[k],
                        dirs[i],
                    )
                &&& forall|i: int|
                    #![trigger dirs[i]]
                    0 <= i < k && projects::begins_with_dir(path, dirs[i]) ==> dirs[i].len()
                        < dirs[k].len()
            },
            None => forall|i: int|
                #![trigger dirs[i]]
                0 <= i < dirs.len() ==> !projects::begins_with_dir(path, dirs[i]),
        },
    decreases dirs.len(),
{
    if dirs.len() > 0 {
        let rest = dirs.drop_last();
        law_the_longest_directory_is_found(rest, path);
        assert forall|i: int| #![trigger dirs[i]] 0 <= i < rest.len() implies dirs[i]
            == rest[i] by {}
        match projects::longest_dir(dirs, path) {
            Some(k) => {
                assert forall|i: int|
                    #![trigger dirs[i]]
                    0 <= i < dirs.len() && projects::begins_with_dir(
                        path,
                        dirs[i],
                    ) implies dirs[i].len() <= dirs[k].len() && projects::begins_with_dir(
                    dirs[k],
                    dirs[i],
                ) by {
                    let a = projects::backslashed(dirs[i]);
                    let b = projects::backslashed(dirs[k]);
                    let whole = projects::backslashed(path);
                    assert(a.len() <= b.len());
                    assert(a =~= whole.subrange(0, a.len() as int));
                    assert(b =~= whole.subrange(0, b.len() as int));
                    assert(a =~= b.subrange(0, a.len() as int));
                }
            },
            None => {},
        }
    }
}

/// The project that a path belongs to is one of the list, and an empty path
/// belongs to none.
pub proof fn law_a_project_comes_from_the_list(
    list: Seq<(Seq<char>, Seq<char>)>,
    path: Seq<char>,
)
    ensures
        projects::project_path_of(list, path) matches Some(found) ==> path.len() > 0 && exists|
            i: int,
        |
            #![trigger list[i]]
            0 <= i < list.len() && list[i].0 == found,
{
    if path.len() > 0 {
        law_the_longest_directory_is_found(projects::lower_dirs(list), projects::lowercase(path));
        match projects::longest_dir(projects::lower_dirs(list), projects::lowercase(path)) {
            Some(k) => {
                assert(list[k].0 == list[k].0);
            },
            None => {},
        }
    }
}

/// The summaries that were loaded for a stamp are handed out again for that
/// stamp, whatever could be loaded by then.
pub proof fn law_rows_are_kept_for_their_stamp(
    adapter: AdapterModel,
    stamp: i64,
    loaded: Option<Seq<AgRowModel>>,
    later: Option<Seq<AgRowModel>>,
)
    requires
        crate::adapter::rows_after(adapter, stamp, loaded) is Some,
    ensures
        ({
            let rows = crate::adapter::rows_after(adapter, stamp, loaded);
            let kept = AdapterModel { rows_cache: Some((stamp, rows->0)), ..adapter };
            crate::adapter::rows_after(kept, stamp, later) == rows
        }),
{
}

/// The projects that were read for a stamp are those kept for it.
pub proof fn law_projects_are_kept_for_their_stamp(
    adapter: AdapterModel,
    stamp: i64,
    list: Seq<(Seq<char>, Seq<char>)>,
)
    ensures
        ({
            let kept = AdapterModel { projects_cache: Some((stamp, list)), ..adapter };
            kept.has_projects(stamp) && kept.projects() == list
        }),
{
}

/// The adapter for a directory that the user has named is told by that directory,
/// by what there is at it and by the home directory alone: whatever adapter is
/// asked for it, it is the same, and it has read nothing. It always has a place to
/// look at, and takes the projects of the directory where there are any, else those
/// of the agent.
pub proof fn law_a_named_directory_gives_a_root(
    separator: char,
    dir: &str,
    probes: crate::adapter::RootProbes,
    home: &str,
    first: AntigravityAdapter,
    second: AntigravityAdapter,
    from_first: AntigravityAdapter,
    from_second: AntigravityAdapter,
)
    requires
        call_ensures(
            AntigravityAdapter::with_custom_root,
            (&first, separator, dir, &probes, home),
            from_first,
        ),
        call_ensures(
            AntigravityAdapter::with_custom_root,
            (&second, separator, dir, &probes, home),
            from_second,
        ),
    ensures
        from_first.deep_view() == from_second.deep_view(),
        from_first.deep_view().rows_cache is None,
        from_first.deep_view().projects_cache is None,
        from_first.deep_view().brain_root is Some || from_first.deep_view().cli_db is Some,
        from_first.deep_view().projects_json == (if probes.projects_is_file {
            layout::projects_file(separator, dir@)
        } else {
            layout::projects_file(separator, layout::gemini_dir(separator, home@))
        }),
{
}

/// A text without a percent sign has no byte that is one.
proof fn lemma_no_percent_byte(s: Seq<char>)
    requires
        !s.contains('%'),
    ensures
        forall|i: int|
            #![trigger vstd::utf8::encode_utf8(s)[i]]
            0 <= i < vstd::utf8::encode_utf8(s).len() ==> vstd::utf8::encode_utf8(s)[i] != 37,
    decreases s.len(),
{
    if s.len() > 0 {
        let bytes = vstd::utf8::encode_utf8(s);
        let head = vstd::utf8::encode_scalar(s[0] as u32);
        let rest = s.drop_first();
        vstd::utf8::encode_utf8_first_scalar(s);
        assert(!rest.contains('%')) by {
            if rest.contains('%') {
                let k = choose|k: int| 0 <= k < rest.len() && rest[k] == '%';
                assert(s[k + 1] == '%');
            }
        }
        lemma_no_percent_byte(rest);
        assert(bytes[0] != 37) by {
            if bytes[0] == 37 {
                assert(37u8 & 0x7f == 37u8) by (bit_vector);
                vstd::utf8::char_u32_cast(s[0], 37u32);
                vstd::utf8::char_u32_cast('%', 37u32);
                assert(s.contains('%'));
            }
        }
        assert forall|i: int| #![trigger bytes[i]] 0 <= i < bytes.len() implies bytes[i] != 37 by {
            if i >= head.len() {
                assert(bytes[i] == vstd::utf8::encode_utf8(rest)[i - head.len()]);
            }
        }
    }
}

/// Bytes without a percent sign have nothing to resolve.
proof fn lemma_nothing_to_unescape(bytes: Seq<u8>)
    requires
        forall|i: int| #![trigger bytes[i]] 0 <= i < bytes.len() ==> bytes[i] != 37,
    ensures
        workspace::unescaped(bytes) == bytes,
    decreases bytes.len(),
{
    if bytes.len() > 0 {
        let rest = bytes.skip(1);
        assert forall|i: int| #![trigger rest[i]] 0 <= i < rest.len() implies rest[i] != 37 by {
            assert(rest[i] == bytes[i + 1]);
        }
        lemma_nothing_to_unescape(rest);
        assert(seq![bytes[0]] + rest =~= bytes);
    }
}

/// A text without a percent sign has no escapes: resolving them gives it back.
pub proof fn law_a_text_without_escapes_is_kept(s: Seq<char>)
    requires
        !s.contains('%'),
    ensures
        workspace::pairs_are_whole(s),
        workspace::percent_decoded(s) == s,
{
    lemma_no_percent_byte(s);
    lemma_nothing_to_unescape(vstd::utf8::encode_utf8(s));
    vstd::utf8::encode_utf8_valid_utf8(s);
    vstd::utf8::encode_utf8_decode_utf8(s);
}

/// Whether bytes are written as a URI may write them: each stands there itself, but
/// for a percent sign, or as a percent sign and two hexadecimal digits, upper or
/// lower case.
pub open spec fn is_escaping(bytes: Seq<u8>, written: Seq<u8>) -> bool
    decreases bytes.len(),
{
    if bytes.len() == 0 {
        written.len() == 0
    } else {
        ||| {
            &&& written.len() >= 1
            &&& bytes[0] != 37
            &&& written[0] == bytes[0]
            &&& is_escaping(bytes.skip(1), written.skip(1))
        }
        ||| {
            &&& written.len() >= 3
            &&& written[0] == 37
            &&& workspace::hex_digit(written[1]) == Some(bytes[0] / 16)
            &&& workspace::hex_digit(written[2]) == Some(bytes[0] % 16)
            &&& is_escaping(bytes.skip(1), written.skip(3))
        }
    }
}

/// Resolving the escapes gives back what was escaped, and each escape is a
/// percent sign and two characters of one byte.
proof fn lemma_unescaping_undoes_escaping(bytes: Seq<u8>, all: Seq<u8>)
    requires
        is_escaping(bytes, all),
    ensures
        workspace::unescaped(all) == bytes,
        forall|i: int|
            #![trigger all[i]]
            0 <= i < all.len() && all[i] == 37 ==> i + 2 < all.len() && all[i + 2] < 128,
    decreases bytes.len(),
{
    if bytes.len() > 0 {
        let b = bytes[0];
        let rest = bytes.skip(1);
        if bytes[0] != 37 && all[0] == b && is_escaping(rest, all.skip(1)) {
            let tail = all.skip(1);
            lemma_unescaping_undoes_escaping(rest, tail);
            assert(workspace::unescaped(all) =~= seq![b] + rest);
            assert forall|i: int|
                #![trigger all[i]]
                0 <= i < all.len() && all[i] == 37 implies i + 2 < all.len() && all[i + 2]
                < 128 by {
                assert(all[i] == tail[i - 1]);
            }
        } else {
            let tail = all.skip(3);
            lemma_unescaping_undoes_escaping(rest, tail);
            assert(workspace::hex_pair(all[1], all[2]) == Some(b));
            assert(workspace::unescaped(all) =~= seq![b] + rest);
            assert forall|i: int|
                #![trigger all[i]]
                0 <= i < all.len() && all[i] == 37 implies i + 2 < all.len() && all[i + 2]
                < 128 by {
                if i >= 3 {
                    assert(all[i] == tail[i - 3]);
                }
            }
        }
        assert(seq![b] + rest =~= bytes);
    }
}

/// A character of one byte ends where a character does.
proof fn lemma_boundary_behind_one_byte(bytes: Seq<u8>, k: int)
    requires
        vstd::utf8::valid_utf8(bytes),
        0 <= k < bytes.len(),
        bytes[k] < 128,
    ensures
        vstd::utf8::is_char_boundary(bytes, k + 1),
    decreases bytes.len(),
{
    let n = vstd::utf8::length_of_first_scalar(bytes);
    let rest = vstd::utf8::pop_first_scalar(bytes);
    if k >= n {
        assert(rest[k - n] == bytes[k]);
        lemma_boundary_behind_one_byte(rest, k - n);
    } else {
        assert(k == 0);
        assert(n == 1);
        assert(vstd::utf8::is_char_boundary(rest, 0));
    }
}

/// A URI that was made from a path by escaping any of its bytes, and each percent
/// sign, stands for that path.
pub proof fn law_escapes_are_undone(path: Seq<char>, uri: Seq<char>)
    requires
        is_escaping(vstd::utf8::encode_utf8(path), vstd::utf8::encode_utf8(uri)),
    ensures
        workspace::pairs_are_whole(uri),
        workspace::percent_decoded(uri) == path,
{
    let bytes = vstd::utf8::encode_utf8(uri);
    lemma_unescaping_undoes_escaping(vstd::utf8::encode_utf8(path), bytes);
    vstd::utf8::encode_utf8_valid_utf8(uri);
    vstd::utf8::encode_utf8_valid_utf8(path);
    vstd::utf8::encode_utf8_decode_utf8(path);
    assert forall|i: int|
        #![trigger bytes[i]]
        0 <= i && i + 2 < bytes.len() && bytes[i] == 37 implies vstd::utf8::is_char_boundary(
        bytes,
        i + 3,
    ) by {
        lemma_boundary_behind_one_byte(bytes, i + 2);
    }
}

} // verus!
