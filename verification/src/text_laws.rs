//! What the pieces of a line say: texts without the white space round them, the
//! request, the document and the model in what the user sent, and what the arguments
//! of a tool call are about.

use crate::conventions::Conventions;
use crate::json::Json;
use crate::request;
use crate::text;
use crate::text::CharClass;
use crate::tool_args;
use vstd::prelude::*;

verus! {

/// Which characters are white space, and which are quotation marks.
pub proof fn law_character_classes(c: char)
    ensures
        CharClass::Space.holds(c) <==> (c == '\u{9}' || c == '\u{a}' || c == '\u{b}' || c
            == '\u{c}' || c == '\u{d}' || c == '\u{20}' || c == '\u{85}' || c == '\u{a0}' || c
            == '\u{1680}' || ('\u{2000}' <= c && c <= '\u{200a}') || c == '\u{2028}' || c
            == '\u{2029}' || c == '\u{202f}' || c == '\u{205f}' || c == '\u{3000}'),
        CharClass::Quote.holds(c) <==> (c == '"' || c == '\''),
        CharClass::Dot.holds(c) <==> c == '.',
{
}

/// Whether a text is what is left of another without the characters of a class at
/// both its ends: it stands there from one place to another, all before it and
/// behind it is of the class, and neither its first character nor its last is.
pub open spec fn is_stripped(s: Seq<char>, class: CharClass, t: Seq<char>, from: int) -> bool {
    &&& 0 <= from
    &&& from + t.len() <= s.len()
    &&& t == s.subrange(from, from + t.len())
    &&& forall|i: int| #![trigger s[i]] 0 <= i < from ==> class.holds(s[i])
    &&& forall|i: int| #![trigger s[i]] from + t.len() <= i < s.len() ==> class.holds(s[i])
    &&& t.len() > 0 ==> !class.holds(t[0]) && !class.holds(t.last())
}

proof fn lemma_strip_start(s: Seq<char>, class: CharClass) -> (k: int)
    ensures
        0 <= k <= s.len(),
        text::strip_start(s, class) == s.skip(k),
        forall|i: int| #![trigger s[i]] 0 <= i < k ==> class.holds(s[i]),
        k < s.len() ==> !class.holds(s[k]),
    decreases s.len(),
{
    if s.len() > 0 && class.holds(s[0]) {
        let rest = s.drop_first();
        let k = lemma_strip_start(rest, class);
        assert(rest.skip(k) =~= s.skip(k + 1));
        assert forall|i: int| #![trigger s[i]] 0 <= i < k + 1 implies class.holds(s[i]) by {
            if i > 0 {
                assert(rest[i - 1] == s[i]);
            }
        }
        if k < rest.len() {
            assert(rest[k] == s[k + 1]);
        }
        k + 1
    } else {
        assert(s.skip(0) =~= s);
        0
    }
}

proof fn lemma_strip_end(s: Seq<char>, class: CharClass) -> (k: int)
    ensures
        0 <= k <= s.len(),
        text::strip_end(s, class) == s.take(k),
        forall|i: int| #![trigger s[i]] k <= i < s.len() ==> class.holds(s[i]),
        k > 0 ==> !class.holds(s[k - 1]),
    decreases s.len(),
{
    if s.len() > 0 && class.holds(s.last()) {
        let rest = s.drop_last();
        let k = lemma_strip_end(rest, class);
        assert(rest.take(k) =~= s.take(k));
        assert forall|i: int| #![trigger s[i]] k <= i < s.len() implies class.holds(s[i]) by {
            if i < rest.len() {
                assert(rest[i] == s[i]);
            }
        }
        if k > 0 {
            assert(rest[k - 1] == s[k - 1]);
        }
        k
    } else {
        assert(s.take(s.len() as int) =~= s);
        s.len() as int
    }
}

/// A text without the characters of a class at both its ends is a piece of the text,
/// with nothing but such characters before it and behind it, and none at its ends.
pub proof fn law_stripping(s: Seq<char>, class: CharClass)
    ensures
        exists|from: int| is_stripped(s, class, text::strip(s, class), from),
        text::trimmed(s) == text::strip(s, CharClass::Space),
{
    let a = lemma_strip_start(s, class);
    let mid = text::strip_start(s, class);
    let b = lemma_strip_end(mid, class);
    let t = text::strip(s, class);
    assert(t =~= s.subrange(a, a + b));
    assert forall|i: int| #![trigger s[i]] a + b <= i < s.len() implies class.holds(s[i]) by {
        assert(mid[i - a] == s[i]);
    }
    if b > 0 {
        assert(t[0] == s[a]);
        assert(t.last() == mid[b - 1]);
    }
    assert(is_stripped(s, class, t, a));
}

/// There is only one such text: it is all that stripping can give.
pub proof fn law_stripping_is_unique(s: Seq<char>, class: CharClass, t: Seq<char>, from: int)
    requires
        is_stripped(s, class, t, from),
        t.len() > 0,
    ensures
        text::strip(s, class) == t,
{
    law_stripping(s, class);
    let u = text::strip(s, class);
    let at = choose|at: int| is_stripped(s, class, u, at);
    assert(t[0] == s[from]);
    assert(t.last() == s[from + t.len() - 1]);
    if u.len() > 0 {
        assert(u[0] == s[at]);
        assert(u.last() == s[at + u.len() - 1]);
        assert(at == from);
        assert(at + u.len() == from + t.len());
    } else {
        if from < at {
            assert(class.holds(s[from]));
        } else {
            assert(class.holds(s[from]));
        }
    }
}

/// The number that digits stand for.
pub open spec fn number_of(s: Seq<char>) -> int
    decreases s.len(),
{
    if s.len() == 0 {
        0
    } else {
        10 * number_of(s.drop_last()) + (s.last() as int - 48)
    }
}

/// Whether a text is a number in decimal as it is written: a minus sign where it is
/// negative, then digits, with no zero before others.
pub open spec fn writes(s: Seq<char>, n: int) -> bool {
    let body = if n < 0 {
        s.skip(1)
    } else {
        s
    };
    &&& n < 0 ==> s.len() > 0 && s[0] == '-'
    &&& body.len() > 0
    &&& forall|i: int| #![trigger body[i]] 0 <= i < body.len() ==> '0' <= body[i] <= '9'
    &&& body.len() > 1 ==> body[0] != '0'
    &&& number_of(body) == if n < 0 {
        -n
    } else {
        n
    }
}

proof fn lemma_digits(n: nat)
    ensures
        ({
            let s = text::digits(n);
            &&& s.len() > 0
            &&& forall|i: int| #![trigger s[i]] 0 <= i < s.len() ==> '0' <= s[i] <= '9'
            &&& s.len() > 1 ==> s[0] != '0'
            &&& number_of(s) == n
            &&& n > 0 ==> s[0] != '0'
        }),
    decreases n,
{
    let s = text::digits(n);
    reveal_with_fuel(number_of, 2);
    if n < 10 {
        assert(s[0] as int == 48 + n);
        assert(s.drop_last() =~= Seq::empty());
    } else {
        let rest = text::digits(n / 10);
        lemma_digits(n / 10);
        assert(s.drop_last() =~= rest);
        assert(s.last() as int == 48 + n % 10);
        assert(s[0] == rest[0]);
        assert forall|i: int| #![trigger s[i]] 0 <= i < s.len() implies '0' <= s[i] <= '9' by {
            if i < rest.len() {
                assert(s[i] == rest[i]);
            }
        }
    }
}

/// Numbers are written in decimal.
pub proof fn law_numbers_are_written_in_decimal(n: int)
    ensures
        writes(text::decimal(n), n),
{
    if n < 0 {
        lemma_digits((-n) as nat);
        assert(text::decimal(n).skip(1) =~= text::digits((-n) as nat));
    } else {
        lemma_digits(n as nat);
    }
}

/// Whether a mark stands in a text at a place.
pub open spec fn stands_at(s: Seq<char>, mark: Seq<char>, i: int) -> bool {
    0 <= i && i + mark.len() <= s.len() && s.subrange(i, i + mark.len()) == mark
}

/// Whether a place is the first at which a mark stands in a text.
pub open spec fn first_at(s: Seq<char>, mark: Seq<char>, i: int) -> bool {
    stands_at(s, mark, i) && forall|j: int| 0 <= j < i ==> !#[trigger] stands_at(s, mark, j)
}

/// Whether a mark stands nowhere in a text.
pub open spec fn is_absent(s: Seq<char>, mark: Seq<char>) -> bool {
    forall|j: int| !#[trigger] stands_at(s, mark, j)
}

/// What is found of a mark is the first place at which it stands.
pub proof fn law_the_first_mark_is_found(s: Seq<char>, mark: Seq<char>, i: int)
    ensures
        first_at(s, mark, i) ==> text::find(s, mark) == Some(i),
        is_absent(s, mark) ==> text::find(s, mark) is None,
{
    text::lemma_find_from(s, mark, 0);
    if first_at(s, mark, i) {
        assert(text::occurs_at(s, mark, i));
        match text::find(s, mark) {
            Some(k) => {
                assert(stands_at(s, mark, k));
            },
            None => {},
        }
    }
    if is_absent(s, mark) {
        match text::find(s, mark) {
            Some(k) => {
                assert(stands_at(s, mark, k));
            },
            None => {},
        }
    }
}

/// The request of the user is what stands between the first opening tag and the
/// closing tag behind it, without the white space round it; all that stands behind
/// the opening tag where the closing one is missing; and the whole where there is no
/// opening tag.
pub proof fn law_the_request_stands_between_the_tags(raw: Seq<char>, i: int, j: int)
    ensures
        first_at(raw, "<USER_REQUEST>"@, i) && first_at(raw.skip(i + 14), "</USER_REQUEST>"@, j)
            ==> request::request_text(raw) == text::trimmed(raw.subrange(i + 14, i + 14 + j)),
        first_at(raw, "<USER_REQUEST>"@, i) && is_absent(raw.skip(i + 14), "</USER_REQUEST>"@)
            ==> request::request_text(raw) == text::trimmed(raw.skip(i + 14)),
        is_absent(raw, "<USER_REQUEST>"@) ==> request::request_text(raw) == text::trimmed(raw),
{
    reveal_strlit("<USER_REQUEST>");
    let rest = raw.skip(i + 14);
    law_the_first_mark_is_found(raw, "<USER_REQUEST>"@, i);
    law_the_first_mark_is_found(rest, "</USER_REQUEST>"@, j);
    assert("<USER_REQUEST>"@.len() == 14);
    if first_at(raw, "<USER_REQUEST>"@, i) && first_at(rest, "</USER_REQUEST>"@, j) {
        assert(rest.take(j) =~= raw.subrange(i + 14, i + 14 + j));
    }
}

/// The first line of a text.
pub open spec fn is_first_line(s: Seq<char>, line: Seq<char>) -> bool {
    ||| first_at(s, "\n"@, line.len() as int) && line == s.take(line.len() as int)
    ||| is_absent(s, "\n"@) && line == s
}

/// The document that was open is what stands in the line behind the first mark of
/// it, up to a blank and an opening bracket, without the white space round it; none
/// where that is empty, or where there is no mark.
pub proof fn law_the_document_stands_behind_its_mark(
    raw: Seq<char>,
    i: int,
    line: Seq<char>,
    k: int,
)
    ensures
        first_at(raw, "Active Document:"@, i) && is_first_line(raw.skip(i + 16), line)
            && is_absent(text::trimmed(line), " ("@) ==> request::document_path(raw) == (if text::trimmed(
            line,
        ).len() > 0 {
            Some(text::trimmed(line))
        } else {
            None
        }),
        first_at(raw, "Active Document:"@, i) && is_first_line(raw.skip(i + 16), line) && first_at(
            text::trimmed(line),
            " ("@,
            k,
        ) ==> request::document_path(raw) == (if text::trimmed(text::trimmed(line).take(k)).len()
            > 0 {
            Some(text::trimmed(text::trimmed(line).take(k)))
        } else {
            None
        }),
        is_absent(raw, "Active Document:"@) ==> request::document_path(raw) is None,
{
    reveal_strlit("Active Document:");
    assert("Active Document:"@.len() == 16);
    let rest = raw.skip(i + 16);
    law_the_first_mark_is_found(raw, "Active Document:"@, i);
    law_the_first_mark_is_found(rest, "\n"@, line.len() as int);
    law_the_first_mark_is_found(text::trimmed(line), " ("@, k);
}

/// Where the name of a model ends: at the first remark that there is no need for
/// something, else at the first full stop that ends a line, else where the line
/// does, else at the end.
pub open spec fn ends_name(rest: Seq<char>, end: int) -> bool {
    ||| first_at(rest, ". No need"@, end)
    ||| is_absent(rest, ". No need"@) && first_at(rest, ".\r\n"@, end)
    ||| is_absent(rest, ". No need"@) && is_absent(rest, ".\r\n"@) && first_at(rest, ".\n"@, end)
    ||| is_absent(rest, ". No need"@) && is_absent(rest, ".\r\n"@) && is_absent(rest, ".\n"@)
        && first_at(rest, "\n"@, end)
    ||| is_absent(rest, ". No need"@) && is_absent(rest, ".\r\n"@) && is_absent(rest, ".\n"@)
        && is_absent(rest, "\n"@) && end == rest.len()
}

/// The model that the user chose is what stands behind the first "to" that follows
/// the mark of the change, up to where the name ends, without the white space round
/// it and without the full stops behind it; none where that is empty, or where there
/// is no such change.
pub proof fn law_the_model_stands_behind_its_mark(raw: Seq<char>, i: int, j: int, end: int)
    ensures
        first_at(raw, "Model Selection` from"@, i) && first_at(raw.skip(i), " to "@, j)
            && ends_name(raw.skip(i + j + 4), end) ==> {
            let name = text::strip_end(
                text::trimmed(raw.subrange(i + j + 4, i + j + 4 + end)),
                CharClass::Dot,
            );
            request::chosen_model(raw) == (if name.len() > 0 {
                Some(name)
            } else {
                None
            })
        },
        first_at(raw, "Model Selection` from"@, i) && is_absent(raw.skip(i), " to "@)
            ==> request::chosen_model(raw) is None,
        is_absent(raw, "Model Selection` from"@) ==> request::chosen_model(raw) is None,
{
    reveal_strlit(" to ");
    assert(" to "@.len() == 4);
    let tail = raw.skip(i);
    law_the_first_mark_is_found(raw, "Model Selection` from"@, i);
    law_the_first_mark_is_found(tail, " to "@, j);
    let rest = raw.skip(i + j + 4);
    if first_at(raw, "Model Selection` from"@, i) && first_at(tail, " to "@, j) && ends_name(
        rest,
        end,
    ) {
        assert(tail.skip(j + 4) =~= rest);
        law_the_first_mark_is_found(rest, ". No need"@, end);
        law_the_first_mark_is_found(rest, ".\r\n"@, end);
        law_the_first_mark_is_found(rest, ".\n"@, end);
        law_the_first_mark_is_found(rest, "\n"@, end);
        assert(request::model_name_end(rest) == end);
        assert(rest.take(end) =~= raw.subrange(i + j + 4, i + j + 4 + end));
    }
}

/// Full stops at the end of a name are taken off, and nothing else.
pub proof fn law_full_stops_are_taken_off(s: Seq<char>)
    ensures
        exists|k: int|
            0 <= k <= s.len() && #[trigger] s.take(k) == text::strip_end(s, CharClass::Dot) && (
            forall|i: int| #![trigger s[i]] k <= i < s.len() ==> s[i] == '.') && (k > 0 ==> s[k - 1]
                != '.'),
{
    let k = lemma_strip_end(s, CharClass::Dot);
    assert(s.take(k) == text::strip_end(s, CharClass::Dot));
}

/// What a member of the arguments tells: a string, without the quotation marks and
/// then the white space round it, where anything is left.
pub open spec fn told(members: Map<Seq<char>, Json>, key: Seq<char>) -> Option<Seq<char>> {
    match members.get(key) {
        Some(Json::Str(s)) => {
            let bare = text::strip(text::strip(s, CharClass::Quote), CharClass::Space);
            if bare.len() > 0 {
                Some(bare)
            } else {
                None
            }
        },
        _ => None,
    }
}

/// Whether arguments are an object with these members, or a text that holds one.
pub open spec fn hold_object(args: Json, members: Map<Seq<char>, Json>) -> bool {
    ||| args == Json::Object(members)
    ||| args matches Json::Str(s) && crate::json::parsed_json(s) == Some(Json::Object(members))
}

/// The text of arguments: a string itself, any other value as JSON.
pub open spec fn written_args(args: Json) -> Seq<char> {
    match args {
        Json::Str(s) => s,
        _ => crate::json::json_text(args),
    }
}

/// What is shown of a call is the first of seven members that tells anything, cut to
/// a hundred and twenty, whatever the other members are; the arguments themselves
/// where none does. The directory that the tool worked in is the first of three
/// members that tells anything. The input is the arguments as they were given.
pub proof fn law_arguments_tell_what_a_call_is_about<C: Conventions>(
    rules: &C,
    args: Json,
    members: Map<Seq<char>, Json>,
)
    requires
        hold_object(args, members),
    ensures
        ({
            let parts = tool_args::args_parts(rules, Some(tool_args::args_of(args)));
            let a = told(members, "toolSummary"@);
            let b = told(members, "toolAction"@);
            let c = told(members, "CommandLine"@);
            let d = told(members, "TargetFile"@);
            let e = told(members, "AbsolutePath"@);
            let f = told(members, "Query"@);
            let g = told(members, "DirectoryPath"@);
            let cwd = told(members, "Cwd"@);
            let dir = told(members, "DirectoryPath"@);
            let search = told(members, "SearchPath"@);
            &&& a is Some ==> parts.0 == rules.clipped(a->0, 120).0
            &&& a is None && b is Some ==> parts.0 == rules.clipped(b->0, 120).0
            &&& a is None && b is None && c is Some ==> parts.0 == rules.clipped(c->0, 120).0
            &&& a is None && b is None && c is None && d is Some ==> parts.0 == rules.clipped(
                d->0,
                120,
            ).0
            &&& a is None && b is None && c is None && d is None && e is Some ==> parts.0
                == rules.clipped(e->0, 120).0
            &&& a is None && b is None && c is None && d is None && e is None && f is Some
                ==> parts.0 == rules.clipped(f->0, 120).0
            &&& a is None && b is None && c is None && d is None && e is None && f is None
                && g is Some ==> parts.0 == rules.clipped(g->0, 120).0
            &&& a is None && b is None && c is None && d is None && e is None && f is None
                && g is None ==> parts.0 == rules.clipped(shown_whole(args), 120).0
            &&& parts.1 == Some(written_args(args))
            &&& cwd is Some ==> parts.2 == cwd
            &&& cwd is None && dir is Some ==> parts.2 == dir
            &&& cwd is None && dir is None ==> parts.2 == search
        }),
{
    let model = tool_args::args_of(args);
    let texts = tool_args::telling_members(model);
    assert(texts =~= Json::Object(members).str_members());
    lemma_telling(members, texts, "toolSummary"@);
    lemma_telling(members, texts, "toolAction"@);
    lemma_telling(members, texts, "CommandLine"@);
    lemma_telling(members, texts, "TargetFile"@);
    lemma_telling(members, texts, "AbsolutePath"@);
    lemma_telling(members, texts, "Query"@);
    lemma_telling(members, texts, "DirectoryPath"@);
    lemma_telling(members, texts, "Cwd"@);
    lemma_telling(members, texts, "SearchPath"@);
    let topics = tool_args::preview_keys();
    assert(topics.len() == 7);
    assert(topics[0] == "toolSummary"@);
    lemma_first_telling(texts, topics);
    let t1 = topics.drop_first();
    assert(t1[0] == "toolAction"@);
    lemma_first_telling(texts, t1);
    let t2 = t1.drop_first();
    assert(t2[0] == "CommandLine"@);
    lemma_first_telling(texts, t2);
    let t3 = t2.drop_first();
    assert(t3[0] == "TargetFile"@);
    lemma_first_telling(texts, t3);
    let t4 = t3.drop_first();
    assert(t4[0] == "AbsolutePath"@);
    lemma_first_telling(texts, t4);
    let t5 = t4.drop_first();
    assert(t5[0] == "Query"@);
    lemma_first_telling(texts, t5);
    let t6 = t5.drop_first();
    assert(t6[0] == "DirectoryPath"@);
    lemma_first_telling(texts, t6);
    assert(t6.drop_first().len() == 0);
    let dirs = tool_args::cwd_keys();
    assert(dirs.len() == 3);
    assert(dirs[0] == "Cwd"@);
    lemma_first_telling(texts, dirs);
    let d1 = dirs.drop_first();
    assert(d1[0] == "DirectoryPath"@);
    lemma_first_telling(texts, d1);
    let d2 = d1.drop_first();
    assert(d2[0] == "SearchPath"@);
    lemma_first_telling(texts, d2);
    assert(d2.drop_first().len() == 0);
}

/// What is shown of arguments that tell nothing: a text without the white space
/// round it, any other value as JSON.
pub open spec fn shown_whole(args: Json) -> Seq<char> {
    match args {
        Json::Str(s) => text::strip(s, CharClass::Space),
        _ => crate::json::json_text(args),
    }
}

proof fn lemma_telling(
    members: Map<Seq<char>, Json>,
    texts: Map<Seq<char>, Seq<char>>,
    key: Seq<char>,
)
    requires
        texts == Json::Object(members).str_members(),
    ensures
        told(members, key) == (if texts.contains_key(key) && tool_args::bare(texts[key]).len() > 0 {
            Some(tool_args::bare(texts[key]))
        } else {
            None
        }),
{
}

proof fn lemma_first_telling(texts: Map<Seq<char>, Seq<char>>, keys: Seq<Seq<char>>)
    requires
        keys.len() > 0,
    ensures
        tool_args::first_telling(texts, keys) == (if texts.contains_key(keys[0])
            && tool_args::bare(texts[keys[0]]).len() > 0 {
            Some(tool_args::bare(texts[keys[0]]))
        } else {
            tool_args::first_telling(texts, keys.drop_first())
        }),
        keys.drop_first().len() == 0 ==> tool_args::first_telling(texts, keys.drop_first()) is None,
{
}

/// Arguments that hold no object tell nothing: they are shown as they are. A call
/// without arguments shows nothing.
pub proof fn law_other_arguments_are_shown_whole<C: Conventions>(rules: &C, args: Json)
    requires
        !(args is Object),
        args matches Json::Str(s) ==> !(crate::json::parsed_json(s) matches Some(Json::Object(_))),
    ensures
        tool_args::args_parts(rules, Some(tool_args::args_of(args))) == (
            rules.clipped(shown_whole(args), 120).0,
            Some(written_args(args)),
            None::<Seq<char>>,
        ),
        tool_args::args_parts(rules, None).0.len() == 0,
        tool_args::args_parts(rules, None).1 is None,
        tool_args::args_parts(rules, None).2 is None,
{
    let model = tool_args::args_of(args);
    let texts = tool_args::telling_members(model);
    assert(texts =~= Map::empty());
    lemma_nothing_telling(tool_args::preview_keys());
    lemma_nothing_telling(tool_args::cwd_keys());
}

proof fn lemma_nothing_telling(keys: Seq<Seq<char>>)
    ensures
        tool_args::first_telling(Map::empty(), keys) is None,
    decreases keys.len(),
{
    if keys.len() > 0 {
        lemma_nothing_telling(keys.drop_first());
    }
}

} // verus!
