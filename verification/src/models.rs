//! Sessions and transcripts, each type with the mathematical model of it that
//! contracts speak of.

use vstd::prelude::*;

verus! {

/// The agent that a session belongs to.
#[derive(Clone, Copy, Debug, PartialEq, Eq, Structural)]
pub enum AgentId {
    Antigravity,
}

/// Who speaks in a message.
#[derive(Clone, Copy, Debug, PartialEq, Eq, Structural)]
pub enum Role {
    User,
    Assistant,
    System,
}

/// What sort of message it is.
#[derive(Clone, Copy, Debug, PartialEq, Eq, Structural)]
pub enum MessageKind {
    Text,
    CompactSummary,
}

/// A call of a tool, with what went in and what came out.
#[derive(Clone, Debug)]
pub struct ToolCallView {
    pub id: String,
    pub name: String,
    pub input_preview: String,
    pub input: Option<String>,
    pub output: Option<String>,
    pub is_error: bool,
    pub sidechain_ref: Option<String>,
}

/// The model of a tool call.
#[verifier::ext_equal]
pub struct ToolCallModel {
    pub id: Seq<char>,
    pub name: Seq<char>,
    pub input_preview: Seq<char>,
    pub input: Option<Seq<char>>,
    pub output: Option<Seq<char>>,
    pub is_error: bool,
    pub sidechain_ref: Option<Seq<char>>,
}

impl DeepView for ToolCallView {
    type V = ToolCallModel;

    open spec fn deep_view(&self) -> ToolCallModel {
        ToolCallModel {
            id: self.id@,
            name: self.name@,
            input_preview: self.input_preview@,
            input: self.input.deep_view(),
            output: self.output.deep_view(),
            is_error: self.is_error,
            sidechain_ref: self.sidechain_ref.deep_view(),
        }
    }
}

/// One message of a transcript.
#[derive(Clone, Debug)]
pub struct TranscriptMessage {
    pub seq: usize,
    pub role: Role,
    pub kind: MessageKind,
    pub text: String,
    pub truncated: bool,
    pub tool_calls: Vec<ToolCallView>,
    pub thinking: Option<String>,
    pub timestamp: Option<i64>,
    pub model: Option<String>,
    pub images: Vec<String>,
}

/// The model of a message.
#[verifier::ext_equal]
pub struct MessageModel {
    pub seq: int,
    pub role: Role,
    pub kind: MessageKind,
    pub text: Seq<char>,
    pub truncated: bool,
    pub tool_calls: Seq<ToolCallModel>,
    pub thinking: Option<Seq<char>>,
    pub timestamp: Option<i64>,
    pub model: Option<Seq<char>>,
    pub images: Seq<Seq<char>>,
}

impl DeepView for TranscriptMessage {
    type V = MessageModel;

    open spec fn deep_view(&self) -> MessageModel {
        MessageModel {
            seq: self.seq as int,
            role: self.role,
            kind: self.kind,
            text: self.text@,
            truncated: self.truncated,
            tool_calls: self.tool_calls.deep_view(),
            thinking: self.thinking.deep_view(),
            timestamp: self.timestamp,
            model: self.model.deep_view(),
            images: self.images.deep_view(),
        }
    }
}

/// Where a session is stored.
#[derive(Clone, Debug)]
pub struct SessionFileRef {
    pub agent: AgentId,
    pub native_id: String,
    pub file_path: String,
    pub mtime_ms: i64,
    pub size: i64,
}

/// The model of a reference to a stored session.
#[verifier::ext_equal]
pub struct RefModel {
    pub agent: AgentId,
    pub native_id: Seq<char>,
    pub file_path: Seq<char>,
    pub mtime_ms: i64,
    pub size: i64,
}

impl DeepView for SessionFileRef {
    type V = RefModel;

    open spec fn deep_view(&self) -> RefModel {
        RefModel {
            agent: self.agent,
            native_id: self.native_id@,
            file_path: self.file_path@,
            mtime_ms: self.mtime_ms,
            size: self.size,
        }
    }
}

/// What the list of sessions shows of one of them.
#[derive(Clone, Debug)]
pub struct SessionMeta {
    pub key: String,
    pub host: String,
    pub id: String,
    pub agent: AgentId,
    pub title: String,
    pub project_path: String,
    pub project_name: String,
    pub file_path: String,
    pub created_at: i64,
    pub updated_at: i64,
    pub message_count: i64,
    pub size_bytes: i64,
    pub git_branch: Option<String>,
    pub model: Option<String>,
    pub tokens_used: Option<i64>,
    pub archived: bool,
    pub source: Option<String>,
    pub favorite: bool,
    pub pinned: bool,
}

/// The model of what the list of sessions shows of one of them.
#[verifier::ext_equal]
pub struct MetaModel {
    pub key: Seq<char>,
    pub host: Seq<char>,
    pub id: Seq<char>,
    pub agent: AgentId,
    pub title: Seq<char>,
    pub project_path: Seq<char>,
    pub project_name: Seq<char>,
    pub file_path: Seq<char>,
    pub created_at: i64,
    pub updated_at: i64,
    pub message_count: i64,
    pub size_bytes: i64,
    pub git_branch: Option<Seq<char>>,
    pub model: Option<Seq<char>>,
    pub tokens_used: Option<i64>,
    pub archived: bool,
    pub source: Option<Seq<char>>,
    pub favorite: bool,
    pub pinned: bool,
}

impl DeepView for SessionMeta {
    type V = MetaModel;

    open spec fn deep_view(&self) -> MetaModel {
        MetaModel {
            key: self.key@,
            host: self.host@,
            id: self.id@,
            agent: self.agent,
            title: self.title@,
            project_path: self.project_path@,
            project_name: self.project_name@,
            file_path: self.file_path@,
            created_at: self.created_at,
            updated_at: self.updated_at,
            message_count: self.message_count,
            size_bytes: self.size_bytes,
            git_branch: self.git_branch.deep_view(),
            model: self.model.deep_view(),
            tokens_used: self.tokens_used,
            archived: self.archived,
            source: self.source.deep_view(),
            favorite: self.favorite,
            pinned: self.pinned,
        }
    }
}

/// A session as the search index takes it.
pub struct ParsedSession<U> {
    pub meta: SessionMeta,
    pub units: Vec<U>,
    pub unknown_line_count: u32,
}

/// A session as the reader of its transcript takes it.
pub struct ParsedTranscript {
    pub meta: SessionMeta,
    pub mainline: Vec<TranscriptMessage>,
    pub sidechains: Vec<Vec<TranscriptMessage>>,
    pub unknown_line_count: u32,
}

/// Messages numbered in their order, from zero.
pub open spec fn numbered(messages: Seq<MessageModel>) -> Seq<MessageModel> {
    messages.map(|i: int, m: MessageModel| MessageModel { seq: i, ..m })
}

/// Numbers the messages in their order, from zero.
pub fn assign_seq(messages: &mut Vec<TranscriptMessage>)
    ensures
        final(messages).deep_view() == numbered(old(messages).deep_view()),
{
    let ghost before = messages.deep_view();
    let len: usize = messages.len();
    let mut i: usize = 0;
    while i < len
        invariant
            i <= len,
            len == messages@.len(),
            len == before.len(),
            forall|j: int|
                #![trigger messages.deep_view()[j]]
                0 <= j < i ==> messages.deep_view()[j] == (MessageModel { seq: j, ..before[j] }),
            forall|j: int|
                #![trigger messages.deep_view()[j]]
                i <= j < len ==> messages.deep_view()[j] == before[j],
        decreases len - i,
    {
        let ghost was = messages.deep_view();
        messages[i].seq = i;
        proof {
            assert(messages.deep_view()[i as int] == (MessageModel {
                seq: i as int,
                ..was[i as int]
            }));
            assert forall|j: int|
                #![trigger messages.deep_view()[j]]
                0 <= j < len && j != i implies messages.deep_view()[j] == was[j] by {}
        }
        i = i + 1;
    }
    assert(messages.deep_view() =~= numbered(before));
}

} // verus!
