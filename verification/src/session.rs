//! The subscriber session: one downstream connection, served from one
//! delivery queue of the hub.
//!
//! The caller owns the connection. It tells the session when the connection
//! is ready for the next message or has failed, and the session answers with
//! what to do: send a message, wait for the next publication, or stop.

use crate::hub::{Delivery, Hub, HubView, SubscriberId};
use vstd::prelude::*;

verus! {

/// Why a session ended.
#[derive(Clone, Copy, Debug, PartialEq, Eq, Structural)]
pub enum SessionEnd {
    /// Writing to the downstream connection failed.
    WriteFailed,
    /// The hub no longer holds the session's queue.
    QueueFailed,
    /// The session was closed by its owner while it was active.
    Closed,
}

/// The state of a session.
#[derive(Clone, Copy, Debug, PartialEq, Eq, Structural)]
pub enum SessionState {
    /// The session serves its connection.
    Active,
    /// The session is over, for the reason given. This state is never left.
    Ended(SessionEnd),
}

/// What happened on the downstream connection.
#[derive(Clone, Copy, Debug, PartialEq, Eq, Structural)]
pub enum SessionEvent {
    /// The connection can take the next message: the session has just
    /// started, the last write has succeeded, or a publication woke it up.
    Ready,
    /// The last write failed.
    WriteFailed,
}

/// What the caller does next.
#[derive(Debug, PartialEq, Eq)]
pub enum SessionAction {
    /// Write this message to the connection as one text frame.
    Send(String),
    /// Nothing is waiting: come back after the next publication.
    Wait,
    /// The session is over: drop the connection.
    Stop,
}

/// The mathematical content of a [`Session`].
pub struct SessionView {
    /// The handle of the session's queue in the hub.
    pub id: nat,
    /// Whether the session is active, or why it ended.
    pub state: SessionState,
}

/// Whether a session with the queue `id` finds a message to send when it is
/// active and its connection is ready.
pub open spec fn has_next(hub: HubView, id: nat) -> bool {
    hub.subscribed(id) && hub.queues[id].len() > 0
}

/// The session's state after `event`.
pub open spec fn next_state(session: SessionView, hub: HubView, event: SessionEvent) -> SessionState {
    match (session.state, event) {
        (SessionState::Ended(end), _) => SessionState::Ended(end),
        (SessionState::Active, SessionEvent::WriteFailed) => SessionState::Ended(
            SessionEnd::WriteFailed,
        ),
        (SessionState::Active, SessionEvent::Ready) => if hub.subscribed(session.id) {
            SessionState::Active
        } else {
            SessionState::Ended(SessionEnd::QueueFailed)
        },
    }
}

/// The hub after `event`: an active session takes its oldest waiting message
/// when its connection is ready, and gives up its queue when a write failed.
/// A session that has ended touches nothing.
pub open spec fn next_hub(session: SessionView, hub: HubView, event: SessionEvent) -> HubView {
    match (session.state, event) {
        (SessionState::Ended(_), _) => hub,
        (SessionState::Active, SessionEvent::WriteFailed) => hub.leave(session.id),
        (SessionState::Active, SessionEvent::Ready) => if has_next(hub, session.id) {
            hub.take(session.id)
        } else {
            hub
        },
    }
}

/// Whatever happens to one session, be it a delivery, a failed write or its
/// end, every other subscriber stays subscribed with its queue as it was,
/// and the hub stays as live as it was.
pub proof fn lemma_session_touches_only_its_queue(
    session: SessionView,
    hub: HubView,
    event: SessionEvent,
    other: nat,
)
    requires
        other != session.id,
    ensures
        next_hub(session, hub, event).live == hub.live,
        next_hub(session, hub, event).capacity == hub.capacity,
        next_hub(session, hub, event).subscribed(other) == hub.subscribed(other),
        hub.subscribed(other) ==> next_hub(session, hub, event).queues[other] == hub.queues[other],
{
}

/// A session that ends gives up its queue: once an active session has ended,
/// the hub holds no queue under its handle.
pub proof fn lemma_ended_session_holds_no_queue(
    session: SessionView,
    hub: HubView,
    event: SessionEvent,
)
    requires
        session.state == SessionState::Active,
        next_state(session, hub, event) is Ended,
    ensures
        !next_hub(session, hub, event).subscribed(session.id),
{
}

/// The session's state after it was closed: an active session ends as
/// closed, and one that had ended keeps its reason.
pub open spec fn closed_state(session: SessionView) -> SessionState {
    match session.state {
        SessionState::Active => SessionState::Ended(SessionEnd::Closed),
        SessionState::Ended(end) => SessionState::Ended(end),
    }
}

/// The hub after a session was closed: an active session gives up its queue.
/// One that had ended has none, and its handle may serve another subscriber
/// by now, so that the hub is not touched.
pub open spec fn closed_hub(session: SessionView, hub: HubView) -> HubView {
    if session.state == SessionState::Active {
        hub.leave(session.id)
    } else {
        hub
    }
}

/// Closing a session takes nothing from any other subscriber, whether the
/// session was still active or had ended long ago and its handle was given
/// out again.
pub proof fn lemma_close_touches_only_its_queue(session: SessionView, hub: HubView, other: nat)
    requires
        other != session.id || session.state is Ended,
    ensures
        closed_hub(session, hub).live == hub.live,
        closed_hub(session, hub).capacity == hub.capacity,
        closed_hub(session, hub).subscribed(other) == hub.subscribed(other),
        hub.subscribed(other) ==> closed_hub(session, hub).queues[other] == hub.queues[other],
{
}

/// A session over one downstream connection.
pub struct Session {
    id: SubscriberId,
    state: SessionState,
}

impl View for Session {
    type V = SessionView;

    closed spec fn view(&self) -> SessionView {
        SessionView { id: self.id@, state: self.state }
    }
}

impl Session {
    /// Starts a session for a connection that was just accepted: subscribes
    /// to `hub`, so that nothing published from now on is lost to it.
    /// Succeeds exactly while the hub is live.
    pub fn open(hub: &mut Hub) -> (session: Option<Session>)
        ensures
            match session {
                Some(session) => {
                    &&& old(hub)@.live
                    &&& old(hub)@.first_free(session@.id)
                    &&& final(hub)@ == old(hub)@.join(session@.id)
                    &&& session@.state == SessionState::Active
                },
                None => !old(hub)@.live && final(hub)@ == old(hub)@,
            },
            final(hub)@.wf(),
    {
        match hub.subscribe() {
            Some(id) => Some(Session { id, state: SessionState::Active }),
            None => None,
        }
    }

    /// The handle of the session's queue.
    pub fn id(&self) -> (id: SubscriberId)
        ensures
            id@ == self@.id,
    {
        self.id
    }

    /// The session's state.
    pub fn state(&self) -> (state: SessionState)
        ensures
            state == self@.state,
    {
        self.state
    }

    /// Closes the session, whatever state it is in. An active session gives
    /// its queue back to the hub and ends; a session that had ended is left
    /// as it is, and so is the hub, where its handle may be in use again.
    pub fn close(&mut self, hub: &mut Hub)
        ensures
            final(self)@.id == old(self)@.id,
            final(self)@.state == closed_state(old(self)@),
            final(self)@.state is Ended,
            final(hub)@ == closed_hub(old(self)@, old(hub)@),
            final(hub)@ == (if old(self)@.state == SessionState::Active {
                old(hub)@.leave(old(self)@.id)
            } else {
                old(hub)@
            }),
            old(self)@.state == SessionState::Active ==> !final(hub)@.subscribed(old(self)@.id),
            old(hub)@.wf() ==> final(hub)@.wf(),
    {
        match self.state {
            SessionState::Active => {
                hub.unsubscribe(self.id);
                self.state = SessionState::Ended(SessionEnd::Closed);
            },
            SessionState::Ended(_) => {},
        }
    }

    /// Handles one event of the downstream connection.
    ///
    /// An active session whose connection is ready sends its oldest waiting
    /// message, waits if there is none, and ends if the hub has no queue for
    /// it. A failed write ends the session and releases its queue. Neither
    /// touches any other subscriber's queue. A session that has ended
    /// answers `Stop` and touches nothing.
    pub fn step(&mut self, hub: &mut Hub, event: SessionEvent) -> (action: SessionAction)
        ensures
            final(self)@.id == old(self)@.id,
            final(self)@.state == next_state(old(self)@, old(hub)@, event),
            final(hub)@ == next_hub(old(self)@, old(hub)@, event),
            match action {
                SessionAction::Send(message) => {
                    &&& old(self)@.state == SessionState::Active
                    &&& event == SessionEvent::Ready
                    &&& has_next(old(hub)@, old(self)@.id)
                    &&& message@ == old(hub)@.queues[old(self)@.id][0]
                },
                SessionAction::Wait => {
                    &&& old(self)@.state == SessionState::Active
                    &&& event == SessionEvent::Ready
                    &&& old(hub)@.subscribed(old(self)@.id)
                    &&& old(hub)@.queues[old(self)@.id].len() == 0
                },
                SessionAction::Stop => final(self)@.state is Ended,
            },
            old(self)@.state == SessionState::Active && final(self)@.state is Ended
                ==> !final(hub)@.subscribed(old(self)@.id),
            old(hub)@.wf() ==> final(hub)@.wf(),
    {
        match self.state {
            SessionState::Ended(_) => SessionAction::Stop,
            SessionState::Active => match event {
                SessionEvent::WriteFailed => {
                    hub.unsubscribe(self.id);
                    self.state = SessionState::Ended(SessionEnd::WriteFailed);
                    SessionAction::Stop
                },
                SessionEvent::Ready => match hub.receive(self.id) {
                    Delivery::Message(message) => SessionAction::Send(message),
                    Delivery::Idle => SessionAction::Wait,
                    Delivery::Closed => {
                        self.state = SessionState::Ended(SessionEnd::QueueFailed);
                        SessionAction::Stop
                    },
                },
            },
        }
    }
}

} // verus!
