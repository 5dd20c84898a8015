//! The upstream reader: the one connection that feeds the hub.
//!
//! The reader is a state machine, `Connecting -> Streaming -> Terminated`,
//! driven by what happens on the upstream connection. The caller performs
//! the connection's work and reports each outcome as an [`UpstreamEvent`];
//! [`UpstreamReader::handle`] publishes text frames to the hub and says what
//! to do next. There is no way back from `Terminated`.

use crate::hub::{Hub, HubView};
use vstd::prelude::*;
use vstd::string::StringExecFns;

verus! {

/// The status reserved for "upstream lost", with which the process ends when
/// the upstream connection cannot be made or breaks. It lies within the
/// eight bits that a parent process gets to see, so that it is never read as
/// success.
pub const UPSTREAM_LOST_EXIT_CODE: i32 = 1;

/// The address of the upstream source behind the local port `port`.
pub open spec fn upstream_url_spec(port: Seq<char>) -> Seq<char> {
    "ws://localhost:"@ + port + "/Messages"@
}

/// The address of the upstream source behind the local port `port`:
/// `ws://localhost:<port>/Messages`.
pub fn upstream_url(port: &str) -> (url: String)
    ensures
        url@ == upstream_url_spec(port@),
{
    let mut url = String::from_str("ws://localhost:");
    url.append(port);
    url.append("/Messages");
    url
}

/// One inbound frame of the upstream connection, by its kind. Only a text
/// frame carries anything the relay reads.
#[derive(Debug, PartialEq, Eq)]
pub enum Frame {
    /// A text frame, with its content.
    Text(String),
    /// A binary frame.
    Binary,
    /// A ping.
    Ping,
    /// A pong.
    Pong,
    /// The closing handshake. The stream's end is reported on its own, as
    /// [`UpstreamFailure::Closed`].
    Close,
    /// A frame that was not decoded.
    Raw,
}

/// Why the upstream was lost.
#[derive(Clone, Copy, Debug, PartialEq, Eq, Structural)]
pub enum UpstreamFailure {
    /// The connection could not be established.
    ConnectFailed,
    /// Reading the next frame failed.
    ReadFailed,
    /// The upstream ended the stream.
    Closed,
}

/// The state of the upstream reader.
#[derive(Clone, Copy, Debug, PartialEq, Eq, Structural)]
pub enum UpstreamState {
    /// The connection is being made.
    Connecting,
    /// The connection stands and frames are read from it.
    Streaming,
    /// The upstream was lost. This state is never left.
    Terminated,
}

/// What happened on the upstream connection.
#[derive(Debug, PartialEq, Eq)]
pub enum UpstreamEvent {
    /// The connection was established.
    Connected,
    /// A frame arrived.
    Frame(Frame),
    /// The connection failed or ended.
    Lost(UpstreamFailure),
}

/// What the caller does after an event was handled.
#[derive(Clone, Copy, Debug, PartialEq, Eq, Structural)]
pub enum UpstreamAction {
    /// Go on: wait for the connection or for the next frame.
    Continue,
    /// The upstream is lost: end the process with status `code`.
    Exit { code: i32, failure: UpstreamFailure },
    /// The reader had terminated before: there is nothing to do.
    Halt,
}

impl UpstreamEvent {
    /// The text that this event brings for publication while streaming, if
    /// any: the content of a text frame.
    pub open spec fn text(self) -> Option<Seq<char>> {
        match self {
            UpstreamEvent::Frame(Frame::Text(text)) => Some(text@),
            _ => None,
        }
    }
}

/// The reader's state after `event` in `state`.
pub open spec fn next_state(state: UpstreamState, event: UpstreamEvent) -> UpstreamState {
    match (state, event) {
        (UpstreamState::Terminated, _) => UpstreamState::Terminated,
        (_, UpstreamEvent::Lost(_)) => UpstreamState::Terminated,
        (_, UpstreamEvent::Connected) => UpstreamState::Streaming,
        (state, UpstreamEvent::Frame(_)) => state,
    }
}

/// What the caller is told after `event` in `state`.
pub open spec fn next_action(state: UpstreamState, event: UpstreamEvent) -> UpstreamAction {
    match (state, event) {
        (UpstreamState::Terminated, _) => UpstreamAction::Halt,
        (_, UpstreamEvent::Lost(failure)) => UpstreamAction::Exit {
            code: UPSTREAM_LOST_EXIT_CODE,
            failure,
        },
        _ => UpstreamAction::Continue,
    }
}

/// The hub after `event` in `state`: a text frame that arrives while
/// streaming is published, the loss of the upstream closes the hub, and
/// nothing else touches it.
pub open spec fn next_hub(state: UpstreamState, event: UpstreamEvent, hub: HubView) -> HubView {
    match (state, event) {
        (UpstreamState::Terminated, _) => hub,
        (_, UpstreamEvent::Lost(_)) => hub.close(),
        (UpstreamState::Streaming, UpstreamEvent::Frame(Frame::Text(text))) => hub.publish(text@),
        _ => hub,
    }
}

/// The reader's state and the hub after the events of `events` were handled
/// in order, starting from `state` and `hub`.
pub open spec fn after_events(
    state: UpstreamState,
    hub: HubView,
    events: Seq<UpstreamEvent>,
) -> (UpstreamState, HubView)
    decreases events.len(),
{
    if events.len() == 0 {
        (state, hub)
    } else {
        let (before, hub_before) = after_events(state, hub, events.drop_last());
        (next_state(before, events.last()), next_hub(before, events.last(), hub_before))
    }
}

/// The texts that `events` bring for publication, in order of arrival.
pub open spec fn texts_of(events: Seq<UpstreamEvent>) -> Seq<Seq<char>>
    decreases events.len(),
{
    if events.len() == 0 {
        Seq::empty()
    } else {
        match events.last().text() {
            Some(text) => texts_of(events.drop_last()).push(text),
            None => texts_of(events.drop_last()),
        }
    }
}

/// While the upstream stands, the reader stays streaming and the hub has
/// had published to it exactly the texts of the text frames, in the order in
/// which they arrived; every other frame is ignored.
pub proof fn lemma_streaming_publishes_in_order(hub: HubView, events: Seq<UpstreamEvent>)
    requires
        forall|i: int| 0 <= i < events.len() ==> !(events[i] is Lost),
    ensures
        after_events(UpstreamState::Streaming, hub, events) == (
            UpstreamState::Streaming,
            hub.publish_all(texts_of(events)),
        ),
    decreases events.len(),
{
    if events.len() > 0 {
        let init = events.drop_last();
        lemma_streaming_publishes_in_order(hub, init);
        match events.last().text() {
            Some(text) => {
                assert(texts_of(events).drop_last() =~= texts_of(init));
            },
            None => {},
        }
    }
}

/// The loss of the upstream is fatal in every state but the last: the reader
/// terminates, the caller is told to end the process with the status
/// reserved for it, which a parent process sees as it is and never as
/// success, and the hub is closed, so that no subscriber has anything left
/// to receive.
pub proof fn lemma_upstream_loss_is_fatal(
    state: UpstreamState,
    hub: HubView,
    failure: UpstreamFailure,
)
    requires
        state != UpstreamState::Terminated,
    ensures
        next_state(state, UpstreamEvent::Lost(failure)) == UpstreamState::Terminated,
        next_action(state, UpstreamEvent::Lost(failure)) == (UpstreamAction::Exit {
            code: UPSTREAM_LOST_EXIT_CODE,
            failure,
        }),
        0 < UPSTREAM_LOST_EXIT_CODE <= 255,
        !next_hub(state, UpstreamEvent::Lost(failure), hub).live,
        forall|id: nat| !next_hub(state, UpstreamEvent::Lost(failure), hub).subscribed(id),
{
}

/// There is no way back from the terminated state: whatever events follow,
/// the reader stays terminated and the hub is not touched.
pub proof fn lemma_terminated_is_final(hub: HubView, events: Seq<UpstreamEvent>)
    ensures
        after_events(UpstreamState::Terminated, hub, events) == (UpstreamState::Terminated, hub),
        forall|i: int|
            0 <= i < events.len() ==> next_action(UpstreamState::Terminated, #[trigger] events[i])
                == UpstreamAction::Halt,
    decreases events.len(),
{
    if events.len() > 0 {
        lemma_terminated_is_final(hub, events.drop_last());
    }
}

/// After the upstream was lost, nothing is delivered any more: whatever
/// events follow the loss, frames included, the hub stays closed and without
/// queues.
pub proof fn lemma_nothing_delivered_after_loss(
    state: UpstreamState,
    hub: HubView,
    failure: UpstreamFailure,
    later: Seq<UpstreamEvent>,
)
    ensures
        after_events(
            next_state(state, UpstreamEvent::Lost(failure)),
            next_hub(state, UpstreamEvent::Lost(failure), hub),
            later,
        ) == (UpstreamState::Terminated, next_hub(state, UpstreamEvent::Lost(failure), hub)),
        state != UpstreamState::Terminated ==> forall|id: nat|
            !(#[trigger] after_events(
                next_state(state, UpstreamEvent::Lost(failure)),
                next_hub(state, UpstreamEvent::Lost(failure), hub),
                later,
            ).1.subscribed(id)),
{
    lemma_terminated_is_final(next_hub(state, UpstreamEvent::Lost(failure), hub), later);
}

/// The upstream reader.
pub struct UpstreamReader {
    state: UpstreamState,
}

impl View for UpstreamReader {
    type V = UpstreamState;

    closed spec fn view(&self) -> UpstreamState {
        self.state
    }
}

impl UpstreamReader {
    /// A reader that has yet to connect.
    pub fn new() -> (reader: UpstreamReader)
        ensures
            reader@ == UpstreamState::Connecting,
    {
        UpstreamReader { state: UpstreamState::Connecting }
    }

    /// The reader's state.
    pub fn state(&self) -> (state: UpstreamState)
        ensures
            state == self@,
    {
        self.state
    }

    /// Handles one event of the upstream connection.
    ///
    /// While streaming, the text of a text frame is published to `hub` at
    /// once and other frames are ignored. The loss of the upstream, in any
    /// form and before or after the connection stood, terminates the reader,
    /// closes `hub` and asks for the process to end with
    /// [`UPSTREAM_LOST_EXIT_CODE`]. A terminated reader ignores every event.
    pub fn handle(&mut self, hub: &mut Hub, event: UpstreamEvent) -> (action: UpstreamAction)
        ensures
            final(self)@ == next_state(old(self)@, event),
            final(hub)@ == next_hub(old(self)@, event, old(hub)@),
            action == next_action(old(self)@, event),
            old(hub)@.wf() ==> final(hub)@.wf(),
    {
        match self.state {
            UpstreamState::Terminated => UpstreamAction::Halt,
            UpstreamState::Connecting => match event {
                UpstreamEvent::Connected => {
                    self.state = UpstreamState::Streaming;
                    UpstreamAction::Continue
                },
                UpstreamEvent::Frame(_) => UpstreamAction::Continue,
                UpstreamEvent::Lost(failure) => self.terminate(hub, failure),
            },
            UpstreamState::Streaming => match event {
                UpstreamEvent::Connected => UpstreamAction::Continue,
                UpstreamEvent::Frame(Frame::Text(text)) => {
                    hub.publish(text.as_str());
                    UpstreamAction::Continue
                },
                UpstreamEvent::Frame(_) => UpstreamAction::Continue,
                UpstreamEvent::Lost(failure) => self.terminate(hub, failure),
            },
        }
    }

    fn terminate(&mut self, hub: &mut Hub, failure: UpstreamFailure) -> (action: UpstreamAction)
        ensures
            final(self)@ == UpstreamState::Terminated,
            final(hub)@ == old(hub)@.close(),
            final(hub)@.wf(),
            action == (UpstreamAction::Exit { code: UPSTREAM_LOST_EXIT_CODE, failure }),
    {
        self.state = UpstreamState::Terminated;
        hub.close();
        UpstreamAction::Exit { code: UPSTREAM_LOST_EXIT_CODE, failure }
    }
}

} // verus!
