//! What the application settles once for the sessions of every agent: how long
//! texts are cut, titles cleaned, times read and messages indexed.

use crate::models::{MessageKind, MessageModel, Role, TranscriptMessage};
use vstd::prelude::*;

verus! {

/// The settings and routines that the adapters of all agents share. Each
/// routine computes a function of its arguments alone, which the contracts of
/// this library speak of; what is proved here holds for any such functions.
pub trait Conventions {
    /// What the search index holds of a session.
    type Unit: DeepView;

    /// A text cut to a limit, and whether anything was cut off.
    spec fn clipped(&self, text: Seq<char>, max: nat) -> (Seq<char>, bool);

    /// The limit for the text of a message.
    spec fn msg_limit(&self) -> nat;

    /// The limit for what goes into a tool, what comes out, and thinking.
    spec fn tool_limit(&self) -> nat;

    /// The title of a session that has none.
    spec fn no_title(&self) -> Seq<char>;

    /// A candidate for a title, cleaned; empty where it is of no use.
    spec fn title_of(&self, text: Seq<char>) -> Seq<char>;

    /// The name of the project in a directory.
    spec fn project_of(&self, path: Seq<char>) -> Seq<char>;

    /// What sort of message a text of the user is.
    spec fn kind_of(&self, text: Seq<char>) -> MessageKind;

    /// The milliseconds of a time in a transcript. Only a positive number is one.
    spec fn iso_time(&self, text: Seq<char>) -> i64;

    /// The milliseconds of a time in a database. Only a positive number is one.
    spec fn store_time(&self, text: Seq<char>) -> i64;

    /// A message that holds a text and nothing else.
    spec fn note(&self, role: Role, text: Seq<char>, time: i64) -> MessageModel;

    /// What the search index holds of the messages of a session.
    spec fn units_of(&self, messages: Seq<MessageModel>) -> Seq<<Self::Unit as DeepView>::V>;

    /// A missing time in a transcript is not positive.
    proof fn no_time_is_not_positive(&self)
        ensures
            self.iso_time(Seq::empty()) <= 0,
    ;

    fn clip(&self, text: &str, max: usize) -> (r: (String, bool))
        ensures
            (r.0@, r.1) == self.clipped(text@, max as nat),
    ;

    fn max_msg_text(&self) -> (r: usize)
        ensures
            r == self.msg_limit(),
    ;

    fn max_tool_io(&self) -> (r: usize)
        ensures
            r == self.tool_limit(),
    ;

    fn untitled(&self) -> (r: String)
        ensures
            r@ == self.no_title(),
    ;

    fn clean_title_candidate(&self, text: &str) -> (r: String)
        ensures
            r@ == self.title_of(text@),
    ;

    fn project_name_of(&self, path: &str) -> (r: String)
        ensures
            r@ == self.project_of(path@),
    ;

    fn user_kind(&self, text: &str) -> (r: MessageKind)
        ensures
            r == self.kind_of(text@),
    ;

    fn iso_ms(&self, text: &str) -> (r: i64)
        ensures
            r == self.iso_time(text@),
    ;

    fn sqlite_dt_ms(&self, text: &str) -> (r: i64)
        ensures
            r == self.store_time(text@),
    ;

    fn text_msg(&self, role: Role, text: &str, time: i64) -> (r: TranscriptMessage)
        ensures
            r.deep_view() == self.note(role, text@, time),
    ;

    fn units_from_messages(&self, messages: &Vec<TranscriptMessage>) -> (r: Vec<Self::Unit>)
        ensures
            r.deep_view() == self.units_of(messages.deep_view()),
    ;
}

} // verus!
