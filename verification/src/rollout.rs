//! The records of a rollout file, as far as a session's status depends on them.
//!
//! Identifiers and paths are plain strings here. Record kinds and contents
//! that no rule of the monitor looks at are collapsed into `Other`.

use vstd::prelude::*;
use vstd::string::*;

verus! {

/// One line of a rollout file.
#[derive(Debug, PartialEq, Eq)]
pub struct RolloutLine {
    /// When the record was written.
    pub timestamp: String,
    /// What was recorded.
    pub item: RolloutItem,
}

/// What a rollout line records.
#[derive(Debug, PartialEq, Eq)]
pub enum RolloutItem {
    SessionMeta(SessionMetaLine),
    ResponseItem(ResponseItem),
    Compacted(CompactedItem),
    TurnContext(TurnContextItem),
    EventMsg(EventMsg),
}

/// The record that opens a session.
#[derive(Debug, PartialEq, Eq)]
pub struct SessionMetaLine {
    pub meta: SessionMeta,
}

/// What a session says of itself.
#[derive(Debug, PartialEq, Eq)]
pub struct SessionMeta {
    pub id: String,
    pub timestamp: String,
    pub cwd: String,
    pub originator: String,
    pub cli_version: String,
}

/// The settings that a turn starts with.
#[derive(Debug, PartialEq, Eq)]
pub struct TurnContextItem {
    pub cwd: String,
}

/// The summary that replaced an earlier part of the conversation.
#[derive(Debug, PartialEq, Eq)]
pub struct CompactedItem {
    pub message: String,
}

/// An item of the model conversation.
#[derive(Debug, PartialEq, Eq)]
pub enum ResponseItem {
    Message { role: String, content: Vec<ContentItem> },
    Other,
}

/// A piece of a conversation message.
#[derive(Debug, PartialEq, Eq)]
pub enum ContentItem {
    OutputText { text: String },
    Other,
}

/// An event of the session's protocol.
#[derive(Debug, PartialEq, Eq)]
pub enum EventMsg {
    TaskStarted,
    TaskComplete(TaskCompleteEvent),
    TurnAborted,
    AgentMessage(AgentMessageEvent),
    AgentMessageDelta(AgentMessageDeltaEvent),
    AgentMessageContentDelta(AgentMessageContentDeltaEvent),
    ItemStarted(ItemStartedEvent),
    ItemCompleted(ItemCompletedEvent),
    Other,
}

/// A task ended by itself.
#[derive(Debug, PartialEq, Eq)]
pub struct TaskCompleteEvent {
    pub last_agent_message: Option<String>,
}

/// A whole message of the assistant.
#[derive(Debug, PartialEq, Eq)]
pub struct AgentMessageEvent {
    pub message: String,
}

/// A further piece of the message that is being streamed.
#[derive(Debug, PartialEq, Eq)]
pub struct AgentMessageDeltaEvent {
    pub delta: String,
}

/// A further piece of the message that is being streamed, with its place.
#[derive(Debug, PartialEq, Eq)]
pub struct AgentMessageContentDeltaEvent {
    pub thread_id: String,
    pub turn_id: String,
    pub item_id: String,
    pub delta: String,
}

/// Work on an item of a turn began.
#[derive(Debug, PartialEq, Eq)]
pub struct ItemStartedEvent {
    pub thread_id: String,
    pub turn_id: String,
    pub item: TurnItem,
}

/// Work on an item of a turn ended.
#[derive(Debug, PartialEq, Eq)]
pub struct ItemCompletedEvent {
    pub thread_id: String,
    pub turn_id: String,
    pub item: TurnItem,
}

/// An item of a turn.
#[derive(Debug, PartialEq, Eq)]
pub enum TurnItem {
    AgentMessage(AgentMessageItem),
    Other,
}

/// A message of the assistant as an item of a turn.
#[derive(Debug, PartialEq, Eq)]
pub struct AgentMessageItem {
    pub id: String,
    pub content: Vec<AgentMessageContent>,
}

/// A piece of an assistant message.
#[derive(Debug, PartialEq, Eq)]
pub enum AgentMessageContent {
    Text { text: String },
}

impl ContentItem {
    /// The text that the assistant put out in this piece, if any.
    pub open spec fn output(self) -> Seq<char> {
        match self {
            ContentItem::OutputText { text } => text@,
            ContentItem::Other => Seq::empty(),
        }
    }

    /// All output text of a message, in order, with nothing in between.
    pub open spec fn joined_output(content: Seq<ContentItem>) -> Seq<char> {
        content.map_values(|c: ContentItem| c.output()).flatten()
    }

    /// The joined output of pieces one after the other: nothing of no piece, one
    /// more text goes to the end, and whatever is no output text adds nothing.
    pub proof fn output_is_joined_in_order(content: Seq<ContentItem>, piece: ContentItem)
        ensures
            Self::joined_output(Seq::empty()) == Seq::<char>::empty(),
            piece matches ContentItem::OutputText { text } ==> Self::joined_output(
                content.push(piece),
            ) == Self::joined_output(content) + text@,
            piece is Other ==> Self::joined_output(content.push(piece)) == Self::joined_output(
                content,
            ),
    {
        let pieces = content.map_values(|c: ContentItem| c.output());
        assert(content.push(piece).map_values(|c: ContentItem| c.output()) =~= pieces.push(
            piece.output(),
        ));
        pieces.lemma_flatten_push(piece.output());
        assert(pieces.flatten() + Seq::empty() =~= pieces.flatten());
        assert(Seq::<ContentItem>::empty().map_values(|c: ContentItem| c.output())
            =~= Seq::empty());
    }

    /// Joins the output text of a message.
    pub fn join_output(content: &Vec<ContentItem>) -> (text: String)
        ensures
            text@ == Self::joined_output(content@),
    {
        let ghost pieces = content@.map_values(|c: ContentItem| c.output());
        let mut text = String::new();
        let mut i: usize = 0;
        proof {
            assert(pieces.take(0) =~= Seq::empty());
        }
        while i < content.len()
            invariant
                i <= content@.len(),
                pieces == content@.map_values(|c: ContentItem| c.output()),
                text@ == pieces.take(i as int).flatten(),
            decreases content@.len() - i,
        {
            let ghost before = text@;
            match &content[i] {
                ContentItem::OutputText { text: piece } => {
                    text.append(piece.as_str());
                },
                ContentItem::Other => {},
            }
            proof {
                assert(pieces.take(i + 1) =~= pieces.take(i as int).push(pieces[i as int]));
                pieces.take(i as int).lemma_flatten_push(pieces[i as int]);
                assert(text@ =~= before + pieces[i as int]);
            }
            i = i + 1;
        }
        proof {
            assert(pieces.take(i as int) =~= pieces);
        }
        text
    }
}

impl AgentMessageContent {
    /// The text of this piece.
    pub open spec fn said(self) -> Seq<char> {
        match self {
            AgentMessageContent::Text { text } => text@,
        }
    }

    /// The text of all pieces, in order, with nothing in between.
    pub open spec fn joined(content: Seq<AgentMessageContent>) -> Seq<char> {
        content.map_values(|c: AgentMessageContent| c.said()).flatten()
    }

    /// The joined text of pieces one after the other: nothing of no piece, and
    /// one more text goes to the end.
    pub proof fn text_is_joined_in_order(
        content: Seq<AgentMessageContent>,
        piece: AgentMessageContent,
    )
        ensures
            Self::joined(Seq::empty()) == Seq::<char>::empty(),
            piece matches AgentMessageContent::Text { text } ==> Self::joined(content.push(piece))
                == Self::joined(content) + text@,
    {
        let pieces = content.map_values(|c: AgentMessageContent| c.said());
        assert(content.push(piece).map_values(|c: AgentMessageContent| c.said()) =~= pieces.push(
            piece.said(),
        ));
        pieces.lemma_flatten_push(piece.said());
        assert(Seq::<AgentMessageContent>::empty().map_values(|c: AgentMessageContent| c.said())
            =~= Seq::empty());
    }

    /// Joins the text of all pieces.
    pub fn join(content: &Vec<AgentMessageContent>) -> (text: String)
        ensures
            text@ == Self::joined(content@),
    {
        let ghost pieces = content@.map_values(|c: AgentMessageContent| c.said());
        let mut text = String::new();
        let mut i: usize = 0;
        proof {
            assert(pieces.take(0) =~= Seq::empty());
        }
        while i < content.len()
            invariant
                i <= content@.len(),
                pieces == content@.map_values(|c: AgentMessageContent| c.said()),
                text@ == pieces.take(i as int).flatten(),
            decreases content@.len() - i,
        {
            match &content[i] {
                AgentMessageContent::Text { text: piece } => {
                    text.append(piece.as_str());
                },
            }
            proof {
                assert(pieces.take(i + 1) =~= pieces.take(i as int).push(pieces[i as int]));
                pieces.take(i as int).lemma_flatten_push(pieces[i as int]);
            }
            i = i + 1;
        }
        proof {
            assert(pieces.take(i as int) =~= pieces);
        }
        text
    }
}

} // verus!
