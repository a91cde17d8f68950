//! The answer of the model, gathered from several steps before it becomes one
//! message.

use crate::conventions::Conventions;
use crate::models::{
    MessageKind, MessageModel, Role, ToolCallModel, ToolCallView, TranscriptMessage,
};
use vstd::prelude::*;

verus! {

/// What has been gathered of an answer.
pub struct PendingAssistant {
    pub content: String,
    pub thinking: Option<String>,
    pub tool_calls: Vec<ToolCallView>,
    pub timestamp: Option<i64>,
    pub model: Option<String>,
}

/// The model of what has been gathered of an answer.
#[verifier::ext_equal]
pub struct PendingModel {
    pub content: Seq<char>,
    pub thinking: Option<Seq<char>>,
    pub tool_calls: Seq<ToolCallModel>,
    pub timestamp: Option<i64>,
    pub model: Option<Seq<char>>,
}

impl DeepView for PendingAssistant {
    type V = PendingModel;

    open spec fn deep_view(&self) -> PendingModel {
        PendingModel {
            content: self.content@,
            thinking: self.thinking.deep_view(),
            tool_calls: self.tool_calls.deep_view(),
            timestamp: self.timestamp,
            model: self.model.deep_view(),
        }
    }
}

impl PendingModel {
    /// Nothing gathered.
    pub open spec fn nothing() -> PendingModel {
        PendingModel {
            content: Seq::empty(),
            thinking: None,
            tool_calls: Seq::empty(),
            timestamp: None,
            model: None,
        }
    }

    /// Whether there is nothing to show: no text, no thinking and no call.
    pub open spec fn is_silent(self) -> bool {
        &&& self.content.len() == 0
        &&& self.thinking is None
        &&& self.tool_calls.len() == 0
    }
}

impl Default for PendingAssistant {
    fn default() -> (r: PendingAssistant)
        ensures
            r.deep_view() == PendingModel::nothing(),
    {
        let r = PendingAssistant {
            content: String::new(),
            thinking: None,
            tool_calls: Vec::new(),
            timestamp: None,
            model: None,
        };
        assert(r.deep_view() =~= PendingModel::nothing());
        r
    }
}

/// The message that a gathered answer becomes.
pub open spec fn answer_message<C: Conventions>(rules: &C, pending: PendingModel) -> MessageModel {
    MessageModel {
        seq: 0,
        role: Role::Assistant,
        kind: MessageKind::Text,
        text: rules.clipped(pending.content, rules.msg_limit()).0,
        truncated: rules.clipped(pending.content, rules.msg_limit()).1,
        tool_calls: pending.tool_calls,
        thinking: match pending.thinking {
            Some(t) => Some(rules.clipped(t, rules.tool_limit()).0),
            None => None,
        },
        timestamp: pending.timestamp,
        model: pending.model,
        images: Seq::empty(),
    }
}

/// What is left of a gathered answer once it has been written out. A silent one
/// stays as it is.
pub open spec fn pending_after_flush(pending: PendingModel) -> PendingModel {
    if pending.is_silent() {
        pending
    } else {
        PendingModel::nothing()
    }
}

/// The messages once a gathered answer has been written out. A silent one adds
/// none.
pub open spec fn messages_after_flush<C: Conventions>(
    rules: &C,
    pending: PendingModel,
    messages: Seq<MessageModel>,
) -> Seq<MessageModel> {
    if pending.is_silent() {
        messages
    } else {
        messages.push(answer_message(rules, pending))
    }
}

/// Writes the gathered answer out as a message, unless it is silent.
pub fn flush_pending_assistant<C: Conventions>(
    rules: &C,
    pending: &mut PendingAssistant,
    messages: &mut Vec<TranscriptMessage>,
)
    ensures
        final(pending).deep_view() == pending_after_flush(old(pending).deep_view()),
        final(messages).deep_view() == messages_after_flush(
            rules,
            old(pending).deep_view(),
            old(messages).deep_view(),
        ),
{
    if pending.content.as_str().is_empty() && pending.thinking.is_none()
        && pending.tool_calls.is_empty() {
        return ;
    }
    let ghost gathered = pending.deep_view();
    let ghost said = messages.deep_view();
    let mut done = PendingAssistant::default();
    std::mem::swap(&mut done, pending);
    let (clipped, truncated) = rules.clip(done.content.as_str(), rules.max_msg_text());
    let thinking = match done.thinking {
        Some(t) => Some(rules.clip(t.as_str(), rules.max_tool_io()).0),
        None => None,
    };
    let message = TranscriptMessage {
        seq: 0,
        role: Role::Assistant,
        kind: MessageKind::Text,
        text: clipped,
        truncated,
        tool_calls: done.tool_calls,
        thinking,
        timestamp: done.timestamp,
        model: done.model,
        images: Vec::new(),
    };
    assert(message.deep_view() =~= answer_message(rules, gathered));
    messages.push(message);
    assert(messages.deep_view() =~= said.push(message.deep_view()));
}

} // verus!
