//! The plainest conventions: texts are cut by characters, titles are first
//! lines, times without a zone are in UTC, and each message is indexed by its text.

use crate::conventions::Conventions;
use crate::models::{MessageKind, MessageModel, Role, TranscriptMessage};
use crate::text;
use crate::text::{chars_of, find_in, text_of, trim_chars};
use crate::time;
use crate::time::timestamp_ms;
use vstd::prelude::*;

verus! {

/// The plainest conventions, with the limits and the title that they use.
pub struct PlainConventions {
    pub max_msg_text: usize,
    pub max_tool_io: usize,
    pub untitled: String,
}

/// The text of a message, for the search index.
pub struct SearchUnit {
    pub seq: usize,
    pub text: String,
}

/// The model of the text of a message.
#[verifier::ext_equal]
pub struct SearchUnitModel {
    pub seq: int,
    pub text: Seq<char>,
}

impl DeepView for SearchUnit {
    type V = SearchUnitModel;

    open spec fn deep_view(&self) -> SearchUnitModel {
        SearchUnitModel { seq: self.seq as int, text: self.text@ }
    }
}

/// A text cut to a number of characters, and whether anything was cut off.
pub open spec fn first_chars(text: Seq<char>, max: nat) -> (Seq<char>, bool) {
    if text.len() <= max {
        (text, false)
    } else {
        (text.take(max as int), true)
    }
}

/// The first line of a text that is not blank.
pub open spec fn first_line(text: Seq<char>) -> Seq<char> {
    text::trimmed(text::before(text::trimmed(text), "\n"@))
}

/// The part of a path behind its last separator.
pub open spec fn last_part(path: Seq<char>) -> Seq<char>
    decreases path.len(),
{
    if path.len() == 0 || path.last() == '/' || path.last() == '\\' {
        Seq::empty()
    } else {
        last_part(path.drop_last()).push(path.last())
    }
}

impl Conventions for PlainConventions {
    type Unit = SearchUnit;

    open spec fn clipped(&self, text: Seq<char>, max: nat) -> (Seq<char>, bool) {
        first_chars(text, max)
    }

    open spec fn msg_limit(&self) -> nat {
        self.max_msg_text as nat
    }

    open spec fn tool_limit(&self) -> nat {
        self.max_tool_io as nat
    }

    open spec fn no_title(&self) -> Seq<char> {
        self.untitled@
    }

    open spec fn title_of(&self, text: Seq<char>) -> Seq<char> {
        first_line(text)
    }

    open spec fn project_of(&self, path: Seq<char>) -> Seq<char> {
        last_part(path)
    }

    open spec fn kind_of(&self, text: Seq<char>) -> MessageKind {
        MessageKind::Text
    }

    open spec fn iso_time(&self, text: Seq<char>) -> i64 {
        time::utc_ms(text) as i64
    }

    open spec fn store_time(&self, text: Seq<char>) -> i64 {
        time::utc_ms(text) as i64
    }

    open spec fn note(&self, role: Role, text: Seq<char>, time: i64) -> MessageModel {
        MessageModel {
            seq: 0,
            role,
            kind: MessageKind::Text,
            text: first_chars(text, self.max_msg_text as nat).0,
            truncated: first_chars(text, self.max_msg_text as nat).1,
            tool_calls: Seq::empty(),
            thinking: None,
            timestamp: if time > 0 {
                Some(time)
            } else {
                None
            },
            model: None,
            images: Seq::empty(),
        }
    }

    open spec fn units_of(&self, messages: Seq<MessageModel>) -> Seq<SearchUnitModel> {
        messages.map_values(|m: MessageModel| SearchUnitModel { seq: m.seq, text: m.text })
    }

    proof fn no_time_is_not_positive(&self) {
    }

    fn clip(&self, text: &str, max: usize) -> (r: (String, bool)) {
        let chars = chars_of(text);
        if chars.len() <= max {
            (text.to_string(), false)
        } else {
            let head = &chars.as_slice()[0..max];
            assert(head@ =~= text@.take(max as int));
            (text_of(head), true)
        }
    }

    fn max_msg_text(&self) -> (r: usize) {
        self.max_msg_text
    }

    fn max_tool_io(&self) -> (r: usize) {
        self.max_tool_io
    }

    fn untitled(&self) -> (r: String) {
        self.untitled.clone()
    }

    fn clean_title_candidate(&self, text: &str) -> (r: String) {
        let chars = chars_of(text);
        let body = trim_chars(chars.as_slice());
        match find_in(body, "\n") {
            Some(i) => {
                let line = &body[0..i];
                assert(line@ =~= body@.take(i as int));
                text_of(trim_chars(line))
            },
            None => text_of(trim_chars(body)),
        }
    }

    fn project_name_of(&self, path: &str) -> (r: String) {
        let chars = chars_of(path);
        let len: usize = chars.len();
        let ghost all = chars@;
        assert(all.take(len as int) =~= all);
        assert(all.subrange(len as int, len as int) =~= Seq::<char>::empty());
        let mut i: usize = len;
        while i > 0 && chars[i - 1] != '/' && chars[i - 1] != '\\'
            invariant
                i <= len,
                len == chars@.len(),
                all == chars@,
                last_part(all) =~= last_part(all.take(i as int)) + all.subrange(
                    i as int,
                    len as int,
                ),
            decreases i,
        {
            assert(all.take(i as int).drop_last() =~= all.take(i - 1));
            assert(all.subrange(i - 1, len as int) =~= seq![all[i - 1]] + all.subrange(
                i as int,
                len as int,
            ));
            i = i - 1;
        }
        let tail = &chars.as_slice()[i..len];
        assert(last_part(all) =~= tail@);
        text_of(tail)
    }

    fn user_kind(&self, text: &str) -> (r: MessageKind) {
        MessageKind::Text
    }

    fn iso_ms(&self, text: &str) -> (r: i64) {
        timestamp_ms(text)
    }

    fn sqlite_dt_ms(&self, text: &str) -> (r: i64) {
        timestamp_ms(text)
    }

    fn text_msg(&self, role: Role, text: &str, time: i64) -> (r: TranscriptMessage) {
        let (clipped, truncated) = self.clip(text, self.max_msg_text);
        let message = TranscriptMessage {
            seq: 0,
            role,
            kind: MessageKind::Text,
            text: clipped,
            truncated,
            tool_calls: Vec::new(),
            thinking: None,
            timestamp: if time > 0 {
                Some(time)
            } else {
                None
            },
            model: None,
            images: Vec::new(),
        };
        assert(message.deep_view() =~= self.note(role, text@, time));
        message
    }

    fn units_from_messages(&self, messages: &Vec<TranscriptMessage>) -> (r: Vec<SearchUnit>) {
        let mut units: Vec<SearchUnit> = Vec::new();
        let mut i: usize = 0;
        while i < messages.len()
            invariant
                i <= messages@.len(),
                units@.len() == i,
                forall|j: int|
                    #![trigger units@[j]]
                    0 <= j < i ==> units@[j].deep_view() == (SearchUnitModel {
                        seq: messages@[j].seq as int,
                        text: messages@[j].text@,
                    }),
            decreases messages@.len() - i,
        {
            units.push(SearchUnit { seq: messages[i].seq, text: messages[i].text.clone() });
            i = i + 1;
        }
        assert(units.deep_view() =~= self.units_of(messages.deep_view()));
        units
    }
}

} // verus!
