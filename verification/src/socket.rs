//! What is said to one client of the monitor.
//!
//! Sending, receiving and waiting is done by the caller, who hands in what
//! happened and is told what to do.

use crate::publish;
use crate::session::{SessionReportView, SessionSnapshot};
use vstd::prelude::*;

verus! {

/// What happened on a client's connection.
#[derive(Debug)]
pub enum SocketEvent {
    /// The client connected; this is the latest snapshot, if there is one yet.
    Connected { latest: Option<SessionSnapshot> },
    /// The last snapshot was sent.
    Sent,
    /// The last snapshot could not be sent.
    SendFailed,
    /// A snapshot was published.
    Update(SessionSnapshot),
    /// Snapshots were missed because they came too fast.
    Lagged,
    /// No snapshot will be published any more.
    UpdatesEnded,
    /// The client said something.
    PeerMessage,
    /// The client closed the connection.
    PeerClosed,
    /// The connection broke.
    PeerFailed,
}

/// What is to be done on a client's connection.
#[derive(Debug)]
pub enum SocketAction {
    /// Send this snapshot.
    Send(SessionSnapshot),
    /// Start to receive what is published, and wait.
    Subscribe,
    /// Wait for what happens next.
    Wait,
    /// Give the connection up.
    Close,
}

/// The snapshot that a client is greeted with: the latest one, and the empty one
/// before there is any.
pub open spec fn greeting(latest: Option<Seq<SessionReportView>>) -> Seq<SessionReportView> {
    match latest {
        Some(snapshot) => snapshot,
        None => Seq::empty(),
    }
}

impl SocketEvent {
    /// Whether the connection is over.
    pub open spec fn ends(self) -> bool {
        match self {
            SocketEvent::SendFailed => true,
            SocketEvent::UpdatesEnded => true,
            SocketEvent::PeerClosed => true,
            SocketEvent::PeerFailed => true,
            _ => false,
        }
    }

    /// The snapshot that is to be sent on account of the event, if any.
    pub open spec fn to_send(self) -> Option<Seq<SessionReportView>> {
        match self {
            SocketEvent::Connected { latest } => Some(greeting(publish::snapshot_of(latest))),
            SocketEvent::Update(snapshot) => Some(snapshot@),
            _ => None,
        }
    }
}

impl SocketAction {
    /// The snapshot that the action sends, if any.
    pub open spec fn sends(self) -> Option<Seq<SessionReportView>> {
        match self {
            SocketAction::Send(snapshot) => Some(snapshot@),
            _ => None,
        }
    }

    /// What the action sends, as a row of none or one.
    pub open spec fn sent(self) -> Seq<Seq<SessionReportView>> {
        row_of(self.sends())
    }
}

/// A row of none or one.
pub open spec fn row_of(snapshot: Option<Seq<SessionReportView>>) -> Seq<Seq<SessionReportView>> {
    match snapshot {
        Some(s) => seq![s],
        None => Seq::empty(),
    }
}

/// What is sent to a client on whose connection all this happens: nothing any
/// more once the connection is over.
pub open spec fn sent_on(events: Seq<SocketEvent>) -> Seq<Seq<SessionReportView>>
    decreases events.len(),
{
    if events.len() == 0 || events[0].ends() {
        Seq::empty()
    } else {
        row_of(events[0].to_send()) + sent_on(events.drop_first())
    }
}

/// The snapshots that are published while all this happens.
pub open spec fn updates_in(events: Seq<SocketEvent>) -> Seq<Seq<SessionReportView>>
    decreases events.len(),
{
    if events.len() == 0 {
        Seq::empty()
    } else {
        row_of(
            match events[0] {
                SocketEvent::Update(snapshot) => Some(snapshot@),
                _ => None,
            },
        ) + updates_in(events.drop_first())
    }
}

/// Without a greeting and an end, exactly the updates are sent.
proof fn updates_are_sent(events: Seq<SocketEvent>)
    requires
        forall|i: int|
            0 <= i < events.len() ==> !(#[trigger] events[i] is Connected) && !events[i].ends(),
    ensures
        sent_on(events) == updates_in(events),
    decreases events.len(),
{
    if events.len() > 0 {
        let rest = events.drop_first();
        assert forall|i: int| 0 <= i < rest.len() implies !(#[trigger] rest[i] is Connected)
            && !rest[i].ends() by {
            assert(rest[i] == events[i + 1]);
        }
        updates_are_sent(rest);
        assert(!(events[0] is Connected));
    }
}

/// A client is sent the greeting first, and then every update once, in order, as
/// long as the connection lasts.
pub proof fn client_gets_every_update_once(
    latest: Option<SessionSnapshot>,
    events: Seq<SocketEvent>,
)
    requires
        forall|i: int|
            0 <= i < events.len() ==> !(#[trigger] events[i] is Connected) && !events[i].ends(),
    ensures
        sent_on(seq![SocketEvent::Connected { latest }] + events) == seq![
            greeting(publish::snapshot_of(latest)),
        ] + updates_in(events),
        latest matches Some(s) ==> sent_on(seq![SocketEvent::Connected { latest }] + events)
            == seq![s@] + updates_in(events),
        latest is None ==> sent_on(seq![SocketEvent::Connected { latest }] + events) == seq![
            Seq::<SessionReportView>::empty(),
        ] + updates_in(events),
{
    let all = seq![SocketEvent::Connected { latest }] + events;
    assert(all.drop_first() =~= events);
    updates_are_sent(events);
}

/// One more thing that happens on a lasting connection: an update is sent as it
/// is, behind everything sent before, and nothing else is.
pub proof fn an_update_is_sent_as_it_is(events: Seq<SocketEvent>, event: SocketEvent)
    requires
        forall|i: int| 0 <= i < events.len() ==> !(#[trigger] events[i]).ends(),
        !(event is Connected),
    ensures
        event matches SocketEvent::Update(s) ==> sent_on(events.push(event)) == sent_on(
            events,
        ).push(s@),
        !(event is Update) ==> sent_on(events.push(event)) == sent_on(events),
    decreases events.len(),
{
    let all = events.push(event);
    if events.len() == 0 {
        assert(all.drop_first() =~= Seq::empty());
        assert(sent_on(all.drop_first()) =~= Seq::empty());
        if event is Update {
            assert(sent_on(all) =~= sent_on(events).push(event->Update_0@));
        } else {
            assert(sent_on(all) =~= sent_on(events));
        }
    } else {
        let rest = events.drop_first();
        assert(all.drop_first() =~= rest.push(event));
        assert(!events[0].ends());
        assert forall|i: int| 0 <= i < rest.len() implies !(#[trigger] rest[i]).ends() by {
            assert(rest[i] == events[i + 1]);
        }
        an_update_is_sent_as_it_is(rest, event);
        if event is Update {
            assert(sent_on(all) =~= sent_on(events).push(event->Update_0@));
        } else {
            assert(sent_on(all) =~= sent_on(events));
        }
    }
}

/// Missed snapshots and what a client says send nothing and end nothing: without
/// them just the same is sent.
pub proof fn lags_and_messages_change_nothing(
    before: Seq<SocketEvent>,
    event: SocketEvent,
    after: Seq<SocketEvent>,
)
    requires
        event is Lagged || event is PeerMessage,
    ensures
        sent_on(before + seq![event] + after) == sent_on(before + after),
    decreases before.len(),
{
    let with = before + seq![event] + after;
    let without = before + after;
    if before.len() == 0 {
        assert(with.drop_first() =~= without);
        assert(Seq::empty() + sent_on(without) =~= sent_on(without));
    } else {
        assert(with.drop_first() =~= before.drop_first() + seq![event] + after);
        assert(without.drop_first() =~= before.drop_first() + after);
        lags_and_messages_change_nothing(before.drop_first(), event, after);
    }
}

/// Once the connection is over, nothing is sent any more.
pub proof fn nothing_is_sent_after_the_end(
    before: Seq<SocketEvent>,
    end: SocketEvent,
    after: Seq<SocketEvent>,
)
    requires
        end.ends(),
    ensures
        sent_on(before + seq![end] + after) == sent_on(before),
    decreases before.len(),
{
    let all = before + seq![end] + after;
    if before.len() > 0 {
        assert(all.drop_first() =~= before.drop_first() + seq![end] + after);
        nothing_is_sent_after_the_end(before.drop_first(), end, after);
    }
}

/// A client's connection: it receives what is published only once it has been
/// greeted.
#[derive(Debug)]
pub struct SocketSession {
    subscribed: bool,
}

impl View for SocketSession {
    type V = bool;

    /// Whether the client receives what is published.
    closed spec fn view(&self) -> bool {
        self.subscribed
    }
}

impl SocketSession {
    /// A connection that has not been greeted yet.
    pub fn new() -> (session: SocketSession)
        ensures
            !session@,
    {
        SocketSession { subscribed: false }
    }

    /// Takes in what happened, and says what to do.
    pub fn on_event(&mut self, event: SocketEvent) -> (action: SocketAction)
        ensures
            action.sends() == event.to_send(),
            action is Close <==> event.ends(),
            match event {
                SocketEvent::Connected { latest } => {
                    &&& latest matches Some(s) ==> (action matches SocketAction::Send(t) && t@
                        == s@)
                    &&& latest is None ==> (action matches SocketAction::Send(t) && t@
                        == Seq::<SessionReportView>::empty())
                },
                SocketEvent::Update(s) => action matches SocketAction::Send(t) && t@ == s@,
                SocketEvent::Sent => if old(self)@ {
                    action is Wait
                } else {
                    action is Subscribe
                },
                SocketEvent::Lagged => action is Wait,
                SocketEvent::PeerMessage => action is Wait,
                SocketEvent::SendFailed => action is Close,
                SocketEvent::UpdatesEnded => action is Close,
                SocketEvent::PeerClosed => action is Close,
                SocketEvent::PeerFailed => action is Close,
            },
            action is Subscribe <==> event is Sent && !old(self)@,
            final(self)@ == (old(self)@ || event is Sent),
            forall|rest: Seq<SocketEvent>| #[trigger]
                sent_on(seq![event] + rest) == action.sent() + (if action is Close {
                    Seq::empty()
                } else {
                    sent_on(rest)
                }),
    {
        proof {
            assert forall|rest: Seq<SocketEvent>| #[trigger]
                (seq![event] + rest).drop_first() == rest by {
                assert((seq![event] + rest).drop_first() =~= rest);
            }
        }
        match event {
            SocketEvent::Connected { latest } => match latest {
                Some(snapshot) => SocketAction::Send(snapshot),
                None => SocketAction::Send(SessionSnapshot::empty()),
            },
            SocketEvent::Sent => {
                if self.subscribed {
                    SocketAction::Wait
                } else {
                    self.subscribed = true;
                    SocketAction::Subscribe
                }
            },
            SocketEvent::Update(snapshot) => SocketAction::Send(snapshot),
            SocketEvent::Lagged => SocketAction::Wait,
            SocketEvent::PeerMessage => SocketAction::Wait,
            SocketEvent::SendFailed => SocketAction::Close,
            SocketEvent::UpdatesEnded => SocketAction::Close,
            SocketEvent::PeerClosed => SocketAction::Close,
            SocketEvent::PeerFailed => SocketAction::Close,
        }
    }
}

} // verus!
