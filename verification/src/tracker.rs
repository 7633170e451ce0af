//! The status of one session, followed record by record.

use crate::clock;
use crate::clock::UnixTime;
use crate::rollout::{
    AgentMessageContent, AgentMessageContentDeltaEvent, AgentMessageDeltaEvent, ContentItem,
    EventMsg, ItemCompletedEvent, ItemStartedEvent, ResponseItem, RolloutItem, RolloutLine,
    SessionMetaLine, TaskCompleteEvent, TurnContextItem, TurnItem,
};
use crate::session::{ActiveSession, ActiveSessionView};
use crate::text;
use vstd::prelude::*;
use vstd::string::*;

verus! {

/// What is known of a session after some of its records.
#[verifier::ext_equal]
pub struct TrackerView {
    pub path: Seq<char>,
    pub modified: Option<int>,
    pub active_window_seconds: nat,
    pub session_id: Option<Seq<char>>,
    pub thread_id: Option<Seq<char>>,
    pub turn_id: Option<Seq<char>>,
    pub cwd: Option<Seq<char>>,
    pub last_response: Option<Seq<char>>,
    /// What the running task has streamed so far.
    pub streaming_response: Option<Seq<char>>,
    pub updated_at: Option<Seq<char>>,
    /// A task is running.
    pub active: bool,
    /// A task has completed or was aborted.
    pub saw_completion: bool,
}

impl TrackerView {
    /// What is known before the first record.
    pub open spec fn fresh(
        path: Seq<char>,
        modified: Option<int>,
        active_window_seconds: nat,
    ) -> TrackerView {
        TrackerView {
            path,
            modified,
            active_window_seconds,
            session_id: None,
            thread_id: None,
            turn_id: None,
            cwd: None,
            last_response: None,
            streaming_response: None,
            updated_at: None,
            active: false,
            saw_completion: false,
        }
    }

    /// There is a stream exactly while a task runs.
    pub open spec fn well_formed(self) -> bool {
        self.active <==> self.streaming_response is Some
    }

    /// The text streamed so far.
    pub open spec fn streamed(self) -> Seq<char> {
        match self.streaming_response {
            Some(t) => t,
            None => Seq::empty(),
        }
    }

    /// The assistant said a whole message: it is the newest response, and
    /// replaces what a running task has streamed.
    pub open spec fn heard(self, message: Seq<char>) -> TrackerView {
        TrackerView {
            last_response: Some(message),
            streaming_response: if self.active {
                Some(message)
            } else {
                self.streaming_response
            },
            ..self
        }
    }

    /// As `heard`, but an empty message changes nothing.
    pub open spec fn heard_if_any(self, message: Seq<char>) -> TrackerView {
        if message.len() > 0 {
            self.heard(message)
        } else {
            self
        }
    }

    /// A running task streamed some more text.
    pub open spec fn streamed_more(self, delta: Seq<char>) -> TrackerView {
        TrackerView { streaming_response: Some(self.streamed() + delta), ..self }
    }

    /// Work goes on in the given thread and turn.
    pub open spec fn located(self, thread_id: Seq<char>, turn_id: Seq<char>) -> TrackerView {
        TrackerView { thread_id: Some(thread_id), turn_id: Some(turn_id), ..self }
    }

    /// A task began: earlier responses and places are forgotten.
    pub open spec fn started(self) -> TrackerView {
        TrackerView {
            active: true,
            last_response: None,
            streaming_response: Some(Seq::empty()),
            turn_id: None,
            thread_id: None,
            ..self
        }
    }

    /// A task ended. The response that stands is the closing message if there is
    /// one, else what was streamed unless that is empty, else the one before.
    pub open spec fn ended(self, closing: Option<Seq<char>>) -> TrackerView {
        TrackerView {
            active: false,
            saw_completion: true,
            last_response: match closing {
                Some(message) => Some(message),
                None => self.newest_response(),
            },
            streaming_response: None,
            ..self
        }
    }

    /// The newest text of the assistant: what was streamed unless it is empty,
    /// else the last whole message.
    pub open spec fn newest_response(self) -> Option<Seq<char>> {
        if self.streamed().len() > 0 {
            self.streaming_response
        } else {
            self.last_response
        }
    }

    /// After a session's opening record.
    pub open spec fn after_session_meta(self, meta: SessionMetaLine) -> TrackerView {
        TrackerView { session_id: Some(meta.meta.id@), cwd: Some(meta.meta.cwd@), ..self }
    }

    /// After the settings of a turn.
    pub open spec fn after_turn_context(self, context: TurnContextItem) -> TrackerView {
        TrackerView { cwd: Some(context.cwd@), ..self }
    }

    /// After an item of the conversation: only what the assistant said counts.
    pub open spec fn after_response_item(self, item: ResponseItem) -> TrackerView {
        match item {
            ResponseItem::Message { role, content } => if role@ == "assistant"@ {
                self.heard_if_any(ContentItem::joined_output(content@))
            } else {
                self
            },
            ResponseItem::Other => self,
        }
    }

    /// After a piece of streamed text, which only a running task can send.
    pub open spec fn after_message_delta(self, event: AgentMessageDeltaEvent) -> TrackerView {
        if self.active {
            self.streamed_more(event.delta@)
        } else {
            self
        }
    }

    /// After a piece of streamed text that tells its place.
    pub open spec fn after_message_content_delta(
        self,
        event: AgentMessageContentDeltaEvent,
    ) -> TrackerView {
        if self.active {
            self.located(event.thread_id@, event.turn_id@).streamed_more(event.delta@)
        } else {
            self
        }
    }

    /// After work on an item began.
    pub open spec fn after_item_started(self, event: ItemStartedEvent) -> TrackerView {
        self.located(event.thread_id@, event.turn_id@)
    }

    /// After work on an item ended: an assistant message is heard.
    pub open spec fn after_item_completed(self, event: ItemCompletedEvent) -> TrackerView {
        let here = self.located(event.thread_id@, event.turn_id@);
        match event.item {
            TurnItem::AgentMessage(item) => here.heard_if_any(
                AgentMessageContent::joined(item.content@),
            ),
            TurnItem::Other => here,
        }
    }

    /// After an event of the protocol.
    pub open spec fn after_event(self, event: EventMsg) -> TrackerView {
        match event {
            EventMsg::TaskStarted => self.started(),
            EventMsg::TaskComplete(e) => self.ended(text::chars_of(e.last_agent_message)),
            EventMsg::TurnAborted => self.ended(None),
            EventMsg::AgentMessage(e) => self.heard(e.message@),
            EventMsg::AgentMessageDelta(e) => self.after_message_delta(e),
            EventMsg::AgentMessageContentDelta(e) => self.after_message_content_delta(e),
            EventMsg::ItemStarted(e) => self.after_item_started(e),
            EventMsg::ItemCompleted(e) => self.after_item_completed(e),
            EventMsg::Other => self,
        }
    }

    /// After one more record.
    pub open spec fn after_line(self, line: RolloutLine) -> TrackerView {
        let seen = TrackerView { updated_at: Some(line.timestamp@), ..self };
        match line.item {
            RolloutItem::SessionMeta(meta) => seen.after_session_meta(meta),
            RolloutItem::TurnContext(context) => seen.after_turn_context(context),
            RolloutItem::Compacted(compacted) => TrackerView {
                last_response: Some(compacted.message@),
                ..seen
            },
            RolloutItem::ResponseItem(item) => seen.after_response_item(item),
            RolloutItem::EventMsg(event) => seen.after_event(event),
        }
    }

    /// After a number of lines. `None` is a line that could not be read.
    pub open spec fn after_lines(self, lines: Seq<Option<RolloutLine>>) -> TrackerView
        decreases lines.len(),
    {
        if lines.len() == 0 {
            self
        } else {
            let before = self.after_lines(lines.drop_last());
            match lines.last() {
                Some(line) => before.after_line(line),
                None => before,
            }
        }
    }

    /// Whether the session counts as active at the time `now`: a task is
    /// running, or no task has ever ended and the file was modified recently.
    pub open spec fn counts_as_active(self, now: int) -> bool {
        self.active || (!self.saw_completion && clock::is_recent(
            self.modified,
            now,
            self.active_window_seconds,
        ))
    }

    /// The session's name: its own id, else its thread's, else "unknown".
    pub open spec fn identity(self) -> Seq<char> {
        match (self.session_id, self.thread_id) {
            (Some(id), _) => id,
            (None, Some(id)) => id,
            (None, None) => "unknown"@,
        }
    }

    /// The session as it is reported if it counts as active.
    pub open spec fn session(self) -> ActiveSessionView {
        ActiveSessionView {
            session_id: self.identity(),
            thread_id: self.thread_id,
            turn_id: self.turn_id,
            cwd: self.cwd,
            last_response: self.newest_response(),
            updated_at: self.updated_at,
            rollout_path: self.path,
        }
    }

    /// The outcome at the time `now`.
    pub open spec fn outcome(self, now: int) -> Option<ActiveSessionView> {
        if self.counts_as_active(now) {
            Some(self.session())
        } else {
            None
        }
    }
}

impl TrackerView {
    /// Reading lines never changes which file is read, when it was modified, or
    /// the window it is measured by.
    pub proof fn lines_keep_the_file(self, lines: Seq<Option<RolloutLine>>)
        ensures
            self.after_lines(lines).path == self.path,
            self.after_lines(lines).modified == self.modified,
            self.after_lines(lines).active_window_seconds == self.active_window_seconds,
        decreases lines.len(),
    {
        if lines.len() > 0 {
            self.lines_keep_the_file(lines.drop_last());
        }
    }
}

/// The characters of an optional session.
pub open spec fn session_of(session: Option<ActiveSession>) -> Option<ActiveSessionView> {
    match session {
        Some(s) => Some(s@),
        None => None,
    }
}

/// An optional session is known by whether it is there and by its characters.
pub proof fn session_of_tells_all(session: Option<ActiveSession>)
    ensures
        session_of(session) is Some <==> session is Some,
        session matches Some(s) ==> session_of(session) == Some(s@),
{
}

/// Follows the status of one session through its rollout records.
#[derive(Debug)]
pub struct RolloutStatusTracker {
    path: String,
    modified: Option<UnixTime>,
    active_window_seconds: u64,
    session_id: Option<String>,
    thread_id: Option<String>,
    turn_id: Option<String>,
    cwd: Option<String>,
    last_response: Option<String>,
    streaming_response: Option<String>,
    updated_at: Option<String>,
    active: bool,
    saw_completion: bool,
}

impl View for RolloutStatusTracker {
    type V = TrackerView;

    closed spec fn view(&self) -> TrackerView {
        TrackerView {
            path: self.path@,
            modified: clock::nanos_of(self.modified),
            active_window_seconds: self.active_window_seconds as nat,
            session_id: text::chars_of(self.session_id),
            thread_id: text::chars_of(self.thread_id),
            turn_id: text::chars_of(self.turn_id),
            cwd: text::chars_of(self.cwd),
            last_response: text::chars_of(self.last_response),
            streaming_response: text::chars_of(self.streaming_response),
            updated_at: text::chars_of(self.updated_at),
            active: self.active,
            saw_completion: self.saw_completion,
        }
    }
}

impl RolloutStatusTracker {
    /// A tracker that has seen no record of the rollout at `path` yet.
    pub fn new(path: &str, modified: Option<UnixTime>, active_window_seconds: u64) -> (tracker:
        RolloutStatusTracker)
        ensures
            tracker@ == TrackerView::fresh(
                path@,
                clock::nanos_of(modified),
                active_window_seconds as nat,
            ),
            tracker@.well_formed(),
    {
        RolloutStatusTracker {
            path: path.to_string(),
            modified,
            active_window_seconds,
            session_id: None,
            thread_id: None,
            turn_id: None,
            cwd: None,
            last_response: None,
            streaming_response: None,
            updated_at: None,
            active: false,
            saw_completion: false,
        }
    }

    /// Takes in one record.
    pub fn apply_line(&mut self, line: RolloutLine)
        ensures
            final(self)@ == old(self)@.after_line(line),
            old(self)@.well_formed() ==> final(self)@.well_formed(),
    {
        self.updated_at = Some(line.timestamp);
        match line.item {
            RolloutItem::SessionMeta(meta) => self.apply_session_meta(meta),
            RolloutItem::TurnContext(context) => self.apply_turn_context(context),
            RolloutItem::Compacted(compacted) => {
                self.last_response = Some(compacted.message);
            },
            RolloutItem::ResponseItem(item) => self.apply_response_item(item),
            RolloutItem::EventMsg(event) => self.apply_event(event),
        }
    }

    /// Takes in a session's opening record.
    pub fn apply_session_meta(&mut self, meta: SessionMetaLine)
        ensures
            final(self)@ == old(self)@.after_session_meta(meta),
    {
        self.session_id = Some(meta.meta.id);
        self.cwd = Some(meta.meta.cwd);
    }

    /// Takes in the settings of a turn.
    pub fn apply_turn_context(&mut self, context: TurnContextItem)
        ensures
            final(self)@ == old(self)@.after_turn_context(context),
    {
        self.cwd = Some(context.cwd);
    }

    /// Takes in an item of the conversation.
    pub fn apply_response_item(&mut self, item: ResponseItem)
        ensures
            final(self)@ == old(self)@.after_response_item(item),
    {
        if let ResponseItem::Message { role, content } = item {
            if role != "assistant".to_string() {
                return ;
            }
            let text = ContentItem::join_output(&content);
            self.hear(text);
        }
    }

    /// Takes in an event of the protocol.
    pub fn apply_event(&mut self, event: EventMsg)
        ensures
            final(self)@ == old(self)@.after_event(event),
    {
        match event {
            EventMsg::TaskStarted => self.apply_task_started(),
            EventMsg::TaskComplete(event) => self.apply_task_complete(event),
            EventMsg::TurnAborted => self.apply_turn_aborted(),
            EventMsg::AgentMessage(event) => {
                if self.active {
                    self.streaming_response = Some(event.message.clone());
                }
                self.last_response = Some(event.message);
            },
            EventMsg::AgentMessageDelta(event) => self.apply_message_delta(event),
            EventMsg::AgentMessageContentDelta(event) => self.apply_message_content_delta(event),
            EventMsg::ItemStarted(event) => self.apply_item_started(event),
            EventMsg::ItemCompleted(event) => self.apply_item_completed(event),
            EventMsg::Other => {},
        }
    }

    /// Takes in that a task began.
    pub fn apply_task_started(&mut self)
        ensures
            final(self)@ == old(self)@.started(),
    {
        self.active = true;
        self.last_response = None;
        self.streaming_response = Some(String::new());
        self.turn_id = None;
        self.thread_id = None;
    }

    /// Takes in that a task completed.
    pub fn apply_task_complete(&mut self, event: TaskCompleteEvent)
        ensures
            final(self)@ == old(self)@.ended(text::chars_of(event.last_agent_message)),
    {
        self.apply_turn_aborted();
        if let Some(message) = event.last_agent_message {
            self.last_response = Some(message);
        }
    }

    /// Takes in that a turn was aborted.
    pub fn apply_turn_aborted(&mut self)
        ensures
            final(self)@ == old(self)@.ended(None),
    {
        self.active = false;
        self.saw_completion = true;
        if let Some(streaming) = self.streaming_response.take() {
            if !streaming.as_str().is_empty() {
                self.last_response = Some(streaming);
            }
        }
    }

    /// Takes in a piece of streamed text.
    pub fn apply_message_delta(&mut self, event: AgentMessageDeltaEvent)
        ensures
            final(self)@ == old(self)@.after_message_delta(event),
    {
        if !self.active {
            return ;
        }
        self.extend_stream(event.delta.as_str());
    }

    /// Takes in a piece of streamed text that tells its place.
    pub fn apply_message_content_delta(&mut self, event: AgentMessageContentDeltaEvent)
        ensures
            final(self)@ == old(self)@.after_message_content_delta(event),
    {
        if !self.active {
            return ;
        }
        self.extend_stream(event.delta.as_str());
        self.thread_id = Some(event.thread_id);
        self.turn_id = Some(event.turn_id);
    }

    /// Takes in that work on an item began.
    pub fn apply_item_started(&mut self, event: ItemStartedEvent)
        ensures
            final(self)@ == old(self)@.after_item_started(event),
    {
        self.thread_id = Some(event.thread_id);
        self.turn_id = Some(event.turn_id);
    }

    /// Takes in that work on an item ended.
    pub fn apply_item_completed(&mut self, event: ItemCompletedEvent)
        ensures
            final(self)@ == old(self)@.after_item_completed(event),
    {
        self.thread_id = Some(event.thread_id);
        self.turn_id = Some(event.turn_id);
        if let TurnItem::AgentMessage(item) = event.item {
            let text = AgentMessageContent::join(&item.content);
            self.hear(text);
        }
    }

    /// A whole message of the assistant; an empty one is passed over.
    fn hear(&mut self, message: String)
        ensures
            final(self)@ == old(self)@.heard_if_any(message@),
    {
        if !message.as_str().is_empty() {
            if self.active {
                self.streaming_response = Some(message.clone());
            }
            self.last_response = Some(message);
        }
    }

    /// Appends to the streamed text.
    fn extend_stream(&mut self, delta: &str)
        ensures
            final(self)@ == old(self)@.streamed_more(delta@),
    {
        let mut buffer = match self.streaming_response.take() {
            Some(buffer) => buffer,
            None => String::new(),
        };
        buffer.append(delta);
        self.streaming_response = Some(buffer);
    }

    /// Decides at the current time whether the session counts as active, and
    /// says what it is. The outcome depends on the clock only where no task is
    /// running, none has ended, and the time of modification is known.
    pub fn finish(self) -> (session: Option<ActiveSession>)
        ensures
            exists|now: UnixTime|
                self@.outcome(#[trigger] now@) == session_of(session),
            self@.active ==> session_of(session) == Some(self@.session()),
            !self@.active && self@.saw_completion ==> session is None,
            !self@.active && self@.modified is None ==> session is None,
    {
        let now = UnixTime::from_epoch_distance(clock::system_clock());
        self.finish_at(now)
    }

    /// Decides whether the session counts as active at the time `now`, and says
    /// what it is.
    pub fn finish_at(self, now: UnixTime) -> (session: Option<ActiveSession>)
        ensures
            session_of(session) == self@.outcome(now@),
            session is Some <==> self@.outcome(now@) is Some,
            session matches Some(s) ==> self@.outcome(now@) == Some(s@),
    {
        if !self.active {
            let recently_active = clock::modified_within(
                self.modified,
                now,
                self.active_window_seconds,
            );
            if self.saw_completion || !recently_active {
                return None;
            }
        }
        let mut last_response = self.last_response;
        if let Some(streaming) = self.streaming_response {
            if !streaming.as_str().is_empty() {
                last_response = Some(streaming);
            }
        }
        let session_id = match self.session_id {
            Some(id) => id,
            None => match &self.thread_id {
                Some(id) => id.clone(),
                None => "unknown".to_string(),
            },
        };
        Some(
            ActiveSession {
                session_id,
                thread_id: self.thread_id,
                turn_id: self.turn_id,
                cwd: self.cwd,
                last_response,
                updated_at: self.updated_at,
                rollout_path: self.path,
            },
        )
    }
}

} // verus!
