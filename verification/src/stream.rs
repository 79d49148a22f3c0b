//! A live stream of one room's messages to one listener.
//!
//! A stream session sits between a receiver on the room's channel and the
//! sink that carries events to the listener. Waiting on the receiver and
//! writing to the sink are the caller's work; the session decides what is
//! done next. The caller tells the session each thing that happened as a
//! [`StreamEvent`] and does what the [`StreamAction`] in the answer says:
//!
//! ```text
//! Attached --Started--> WaitingForMessage --Received(m)--> Delivering
//!                            ^    |  ^                        |
//!                            |    |  +------ Delivered -------+
//!                            +----+
//!                            Lagged
//!
//! WaitingForMessage --ChannelClosed--> Closed
//! any state but Closed --SinkClosed--> Closed
//! ```

use vstd::prelude::*;
use tokio::sync::broadcast::Receiver;
use crate::channel::listens_on;
use crate::error::RoomError;
use crate::managers::room_manager::RoomManager;
use crate::models::message::{Message, MessageView};

verus! {

/// Where a stream session stands.
#[derive(Clone, Copy, Debug, PartialEq, Eq, Structural)]
pub enum SessionState {
    /// Subscribed to the channel; the loop has not begun.
    Attached,
    /// Waiting for the channel to bring the next message.
    WaitingForMessage,
    /// A message is on its way to the sink.
    Delivering,
    /// Over. A closed session stays closed.
    Closed,
}

/// A stream event as the contracts see it.
pub enum StreamEventView {
    Started,
    Received(MessageView),
    Lagged(u64),
    ChannelClosed,
    Delivered,
    SinkClosed,
}

/// What happened outside the session.
#[derive(Debug)]
pub enum StreamEvent {
    /// The caller begins to pump the stream.
    Started,
    /// The channel brought a message.
    Received(Message),
    /// The listener fell behind and the channel dropped this many of the
    /// oldest messages it had not read yet.
    Lagged(u64),
    /// The channel is closed for good: nothing will be published any more.
    ChannelClosed,
    /// The sink took the message that was forwarded to it.
    Delivered,
    /// The listener is gone: the sink is closed.
    SinkClosed,
}

impl View for StreamEvent {
    type V = StreamEventView;

    open spec fn view(&self) -> StreamEventView {
        match *self {
            StreamEvent::Started => StreamEventView::Started,
            StreamEvent::Received(message) => StreamEventView::Received(message@),
            StreamEvent::Lagged(missed) => StreamEventView::Lagged(missed),
            StreamEvent::ChannelClosed => StreamEventView::ChannelClosed,
            StreamEvent::Delivered => StreamEventView::Delivered,
            StreamEvent::SinkClosed => StreamEventView::SinkClosed,
        }
    }
}

/// A stream action as the contracts see it.
pub enum StreamActionView {
    Wait,
    Forward(MessageView),
    Stop,
}

/// What the caller is to do next.
#[derive(Debug)]
pub enum StreamAction {
    /// Wait for the channel to bring a message, and report what came.
    Wait,
    /// Write this message to the sink as one event, and report how it went.
    Forward(Message),
    /// Let go of the receiver and the sink: the stream is over.
    Stop,
}

impl View for StreamAction {
    type V = StreamActionView;

    open spec fn view(&self) -> StreamActionView {
        match *self {
            StreamAction::Wait => StreamActionView::Wait,
            StreamAction::Forward(message) => StreamActionView::Forward(message@),
            StreamAction::Stop => StreamActionView::Stop,
        }
    }
}

/// Whether `event` is one that can happen to a session in `state`.
pub open spec fn accepts(state: SessionState, event: StreamEventView) -> bool {
    match (state, event) {
        (SessionState::Closed, _) => false,
        (_, StreamEventView::SinkClosed) => true,
        (SessionState::Attached, StreamEventView::Started) => true,
        (SessionState::WaitingForMessage, StreamEventView::Received(_)) => true,
        (SessionState::WaitingForMessage, StreamEventView::Lagged(_)) => true,
        (SessionState::WaitingForMessage, StreamEventView::ChannelClosed) => true,
        (SessionState::Delivering, StreamEventView::Delivered) => true,
        _ => false,
    }
}

/// Where a session in `state` stands after `event`. An event that the state
/// does not accept moves nothing.
pub open spec fn next_state(state: SessionState, event: StreamEventView) -> SessionState {
    if !accepts(state, event) {
        state
    } else {
        match event {
            StreamEventView::Started => SessionState::WaitingForMessage,
            StreamEventView::Received(_) => SessionState::Delivering,
            StreamEventView::Lagged(_) => SessionState::WaitingForMessage,
            StreamEventView::Delivered => SessionState::WaitingForMessage,
            StreamEventView::ChannelClosed => SessionState::Closed,
            StreamEventView::SinkClosed => SessionState::Closed,
        }
    }
}

/// What a session in `state` asks for after `event`: nothing where the state
/// does not accept the event.
pub open spec fn action_for(state: SessionState, event: StreamEventView) -> Option<
    StreamActionView,
> {
    if !accepts(state, event) {
        None
    } else {
        match event {
            StreamEventView::Started => Some(StreamActionView::Wait),
            StreamEventView::Received(message) => Some(StreamActionView::Forward(message)),
            StreamEventView::Lagged(_) => Some(StreamActionView::Wait),
            StreamEventView::Delivered => Some(StreamActionView::Wait),
            StreamEventView::ChannelClosed => Some(StreamActionView::Stop),
            StreamEventView::SinkClosed => Some(StreamActionView::Stop),
        }
    }
}

/// Where a session that starts in `state` stands after the events of
/// `events`, one after the other.
pub open spec fn state_after(state: SessionState, events: Seq<StreamEventView>) -> SessionState
    decreases events.len(),
{
    if events.len() == 0 {
        state
    } else {
        next_state(state_after(state, events.drop_last()), events.last())
    }
}

/// The messages that a session which starts in `state` hands to the sink
/// over the events of `events`, in the order in which it hands them over.
pub open spec fn forwarded(state: SessionState, events: Seq<StreamEventView>) -> Seq<MessageView>
    decreases events.len(),
{
    if events.len() == 0 {
        Seq::empty()
    } else {
        let before = forwarded(state, events.drop_last());
        match action_for(state_after(state, events.drop_last()), events.last()) {
            Some(StreamActionView::Forward(message)) => before.push(message),
            _ => before,
        }
    }
}

/// The messages that the channel brought over the events of `events`, in the
/// order in which it brought them.
pub open spec fn received(events: Seq<StreamEventView>) -> Seq<MessageView>
    decreases events.len(),
{
    if events.len() == 0 {
        Seq::empty()
    } else {
        let before = received(events.drop_last());
        match events.last() {
            StreamEventView::Received(message) => before.push(message),
            _ => before,
        }
    }
}

/// Every event of `events` is accepted by the state in which it finds a
/// session that started in `state`.
pub open spec fn in_protocol(state: SessionState, events: Seq<StreamEventView>) -> bool {
    forall|i: int|
        0 <= i < events.len() ==> accepts(
            state_after(state, #[trigger] events.take(i)),
            events[i],
        )
}

/// A closed session accepts nothing, so it stays closed whatever is reported
/// to it, and asks for nothing more.
pub proof fn lemma_closed_stays_closed(events: Seq<StreamEventView>)
    ensures
        state_after(SessionState::Closed, events) == SessionState::Closed,
        forwarded(SessionState::Closed, events) == Seq::<MessageView>::empty(),
    decreases events.len(),
{
    if events.len() > 0 {
        lemma_closed_stays_closed(events.drop_last());
    }
}

/// A session closes on two events only: the sink was closed, or the channel
/// was. A listener that fell behind keeps its session, which goes on waiting.
pub proof fn lemma_closes_only_when_told(state: SessionState, event: StreamEventView)
    requires
        state != SessionState::Closed,
    ensures
        next_state(state, event) == SessionState::Closed <==> accepts(state, event) && (event
            is SinkClosed || event is ChannelClosed),
        state == SessionState::WaitingForMessage && event is Lagged ==> next_state(state, event)
            == SessionState::WaitingForMessage && action_for(state, event) == Some(
            StreamActionView::Wait,
        ),
{
}

/// What a session hands to the sink is, message for message and in the same
/// order, what the channel brought to it: over events that keep to the
/// protocol nothing is left out, nothing is added and nothing changes place.
pub proof fn lemma_forwards_what_was_received(state: SessionState, events: Seq<StreamEventView>)
    requires
        in_protocol(state, events),
    ensures
        forwarded(state, events) == received(events),
    decreases events.len(),
{
    if events.len() > 0 {
        let shorter = events.drop_last();
        assert forall|i: int| 0 <= i < shorter.len() implies accepts(
            state_after(state, #[trigger] shorter.take(i)),
            shorter[i],
        ) by {
            assert(shorter.take(i) == events.take(i));
        }
        lemma_forwards_what_was_received(state, shorter);
        assert(events.take(events.len() - 1) == shorter);
    }
}

/// One listener's live stream of a room.
#[derive(Debug)]
pub struct StreamSession {
    state: SessionState,
}

impl StreamSession {
    /// Where the session stands.
    pub closed spec fn spec_state(&self) -> SessionState {
        self.state
    }

    /// A session that has just been attached to a channel.
    pub fn new() -> (session: StreamSession)
        ensures
            session.spec_state() == SessionState::Attached,
    {
        StreamSession { state: SessionState::Attached }
    }

    /// Where the session stands.
    #[verifier::when_used_as_spec(spec_state)]
    pub fn state(&self) -> (state: SessionState)
        ensures
            state == self.spec_state(),
    {
        self.state
    }

    /// Whether the session is over.
    pub fn is_closed(&self) -> (closed: bool)
        ensures
            closed == (self.spec_state() == SessionState::Closed),
    {
        match self.state {
            SessionState::Closed => true,
            _ => false,
        }
    }

    /// Takes note of `event` and says what is to be done next.
    ///
    /// An event that cannot happen in the session's state (a delivery
    /// reported while nothing was forwarded, anything at all after the end)
    /// is answered with `None` and moves nothing.
    pub fn step(&mut self, event: StreamEvent) -> (action: Option<StreamAction>)
        ensures
            final(self).spec_state() == next_state(old(self).spec_state(), event@),
            match action_for(old(self).spec_state(), event@) {
                Some(expected) => action matches Some(given) && given@ == expected,
                None => action is None,
            },
    {
        match self.state {
            SessionState::Closed => None,
            SessionState::Attached => match event {
                StreamEvent::Started => {
                    self.state = SessionState::WaitingForMessage;
                    Some(StreamAction::Wait)
                },
                StreamEvent::SinkClosed => {
                    self.state = SessionState::Closed;
                    Some(StreamAction::Stop)
                },
                _ => None,
            },
            SessionState::WaitingForMessage => match event {
                StreamEvent::Received(message) => {
                    self.state = SessionState::Delivering;
                    Some(StreamAction::Forward(message))
                },
                StreamEvent::Lagged(_) => Some(StreamAction::Wait),
                StreamEvent::ChannelClosed => {
                    self.state = SessionState::Closed;
                    Some(StreamAction::Stop)
                },
                StreamEvent::SinkClosed => {
                    self.state = SessionState::Closed;
                    Some(StreamAction::Stop)
                },
                _ => None,
            },
            SessionState::Delivering => match event {
                StreamEvent::Delivered => {
                    self.state = SessionState::WaitingForMessage;
                    Some(StreamAction::Wait)
                },
                StreamEvent::SinkClosed => {
                    self.state = SessionState::Closed;
                    Some(StreamAction::Stop)
                },
                _ => None,
            },
        }
    }
}

/// Attaches a new listener to the room `room_id`: a session that has not
/// begun yet, and the receiver that it is to be fed from, which listens on
/// the channel of that room. The receiver is sent what is posted to the room
/// from now on; what was posted before is in the room's history.
///
/// Refused with `RoomNotFound` where no such room is registered.
pub fn stream_messages(manager: &RoomManager, room_id: u128) -> (result: Result<
    (StreamSession, Receiver<Message>),
    RoomError,
>)
    requires
        manager.wf(),
    ensures
        result is Ok <==> manager@.contains_key(room_id),
        result matches Err(e) ==> e == RoomError::RoomNotFound,
        result matches Ok(attached) ==> {
            &&& attached.0.spec_state() == SessionState::Attached
            &&& listens_on(attached.1, manager.channel(room_id))
        },
{
    match manager.subscribe(room_id) {
        Ok(listener) => Ok((StreamSession::new(), listener)),
        Err(e) => Err(e),
    }
}

} // verus!
