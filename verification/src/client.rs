//! The participant: how it gets to a relay, and what it does with each line
//! and each outgoing message once it is there. The sockets and the queues
//! are not here; these are the decisions, from phase and event to next
//! phase and action.

use vstd::prelude::*;
use crate::codec::{decode, decode_spec, encode, encode_spec};
use vstd::string::StringExecFns;
use crate::message::{
    Connect, ConnectView, Disconnect, DisconnectView, MessageType, MessageTypeView, Notification,
    NotificationView,
};

verus! {

/// How long the first attempt to connect may take, in milliseconds.
pub const CONNECT_TIMEOUT_MS: u64 = 5000;

/// How long a relay that was just started is given before the second
/// attempt to connect, in milliseconds.
pub const GRACE_PERIOD_MS: u64 = 500;

/// How many messages each of the two queues between the foreground and the
/// network side holds.
pub const QUEUE_CAPACITY: usize = 128;

/// Where a participant stands.
#[derive(Debug, Clone, Copy, PartialEq, Eq, Hash, Structural)]
pub enum ClientPhase {
    /// The first attempt to reach a relay is under way.
    Connecting,
    /// No relay answered; one was started here and is given its grace period.
    Hosting,
    /// The second and last attempt to reach a relay is under way.
    Retrying,
    /// Connected: lines come in and messages go out.
    Session,
    /// Over. Nothing comes in or goes out any more, and nothing starts again.
    Ended,
}

/// What happens to a participant.
#[derive(Debug)]
pub enum ClientEvent {
    /// The attempt to connect succeeded.
    Connected,
    /// The attempt to connect failed or ran out of time.
    ConnectFailed,
    /// The grace period of the relay that was started here is over.
    GraceElapsed,
    /// A complete line arrived from the relay.
    Line(Vec<u8>),
    /// The foreground has a message to send.
    Outbound(MessageType),
    /// The transport ended or failed, reading or writing.
    TransportClosed,
    /// The foreground is gone: nothing will be sent any more.
    OutboundClosed,
}

/// What a [`ClientEvent`] holds.
pub enum ClientEventView {
    Connected,
    ConnectFailed,
    GraceElapsed,
    Line(Seq<u8>),
    Outbound(MessageTypeView),
    TransportClosed,
    OutboundClosed,
}

impl View for ClientEvent {
    type V = ClientEventView;

    open spec fn view(&self) -> ClientEventView {
        match self {
            ClientEvent::Connected => ClientEventView::Connected,
            ClientEvent::ConnectFailed => ClientEventView::ConnectFailed,
            ClientEvent::GraceElapsed => ClientEventView::GraceElapsed,
            ClientEvent::Line(line) => ClientEventView::Line(line@),
            ClientEvent::Outbound(msg) => ClientEventView::Outbound(msg@),
            ClientEvent::TransportClosed => ClientEventView::TransportClosed,
            ClientEvent::OutboundClosed => ClientEventView::OutboundClosed,
        }
    }
}

/// What a participant is to do next.
#[derive(Debug)]
pub enum ClientAction {
    /// Nothing.
    Idle,
    /// Start a relay at the address that did not answer, and wait the grace period.
    StartRelay,
    /// Try to connect, once more.
    Connect,
    /// Hand a message that came in to the foreground.
    Deliver(MessageType),
    /// Write a line to the relay.
    Write(Vec<u8>),
    /// Stop: close the transport and both queues.
    Stop,
}

/// What a [`ClientAction`] holds.
pub enum ClientActionView {
    Idle,
    StartRelay,
    Connect,
    Deliver(MessageTypeView),
    Write(Seq<u8>),
    Stop,
}

impl View for ClientAction {
    type V = ClientActionView;

    open spec fn view(&self) -> ClientActionView {
        match self {
            ClientAction::Idle => ClientActionView::Idle,
            ClientAction::StartRelay => ClientActionView::StartRelay,
            ClientAction::Connect => ClientActionView::Connect,
            ClientAction::Deliver(msg) => ClientActionView::Deliver(msg@),
            ClientAction::Write(line) => ClientActionView::Write(line@),
            ClientAction::Stop => ClientActionView::Stop,
        }
    }
}

/// The phase after an event. A participant that finds no relay starts one
/// and tries once more; a second failure ends it. A session ends when the
/// transport or the foreground is gone, and never starts again. An event
/// that does not belong to the phase changes nothing.
pub open spec fn phase_after(phase: ClientPhase, event: ClientEventView) -> ClientPhase {
    match (phase, event) {
        (ClientPhase::Connecting, ClientEventView::Connected) => ClientPhase::Session,
        (ClientPhase::Connecting, ClientEventView::ConnectFailed) => ClientPhase::Hosting,
        (ClientPhase::Hosting, ClientEventView::GraceElapsed) => ClientPhase::Retrying,
        (ClientPhase::Retrying, ClientEventView::Connected) => ClientPhase::Session,
        (ClientPhase::Retrying, ClientEventView::ConnectFailed) => ClientPhase::Ended,
        (ClientPhase::Session, ClientEventView::TransportClosed) => ClientPhase::Ended,
        (ClientPhase::Session, ClientEventView::OutboundClosed) => ClientPhase::Ended,
        _ => phase,
    }
}

/// What is to be done on an event. In a session, a line that decodes is
/// handed to the foreground and one that does not is dropped; a message
/// from the foreground is written as its line.
pub open spec fn action_on(phase: ClientPhase, event: ClientEventView) -> ClientActionView {
    match (phase, event) {
        (ClientPhase::Connecting, ClientEventView::ConnectFailed) => ClientActionView::StartRelay,
        (ClientPhase::Hosting, ClientEventView::GraceElapsed) => ClientActionView::Connect,
        (ClientPhase::Retrying, ClientEventView::ConnectFailed) => ClientActionView::Stop,
        (ClientPhase::Session, ClientEventView::TransportClosed) => ClientActionView::Stop,
        (ClientPhase::Session, ClientEventView::OutboundClosed) => ClientActionView::Stop,
        (ClientPhase::Session, ClientEventView::Line(line)) => match decode_spec(line) {
            Ok(msg) => ClientActionView::Deliver(msg),
            Err(_) => ClientActionView::Idle,
        },
        (ClientPhase::Session, ClientEventView::Outbound(msg)) => ClientActionView::Write(
            encode_spec(msg),
        ),
        _ => ClientActionView::Idle,
    }
}

/// The phase after a sequence of events, the first handled first.
pub open spec fn phase_after_all(phase: ClientPhase, events: Seq<ClientEventView>) -> ClientPhase
    decreases events.len(),
{
    if events.len() == 0 {
        phase
    } else {
        phase_after_all(phase_after(phase, events[0]), events.skip(1))
    }
}

/// Once a participant has ended, it stays so, whatever happens.
pub proof fn lemma_ended_is_final(events: Seq<ClientEventView>)
    ensures
        phase_after_all(ClientPhase::Ended, events) == ClientPhase::Ended,
    decreases events.len(),
{
    if events.len() != 0 {
        lemma_ended_is_final(events.skip(1));
    }
}

/// A session goes on through every line, well-formed or not, and every
/// outgoing message: only the end of the transport or of the foreground
/// ends it.
pub proof fn lemma_session_goes_on(events: Seq<ClientEventView>)
    requires
        forall|i: int|
            0 <= i < events.len() ==> !(#[trigger] events[i] is TransportClosed) && !(
            events[i] is OutboundClosed),
    ensures
        phase_after_all(ClientPhase::Session, events) == ClientPhase::Session,
    decreases events.len(),
{
    if events.len() != 0 {
        assert forall|i: int| 0 <= i < events.skip(1).len() implies !(
        #[trigger] events.skip(1)[i] is TransportClosed) && !(events.skip(1)[i] is OutboundClosed) by {
            assert(events.skip(1)[i] == events[i + 1]);
        }
        lemma_session_goes_on(events.skip(1));
    }
}

/// Falling back on a relay of one's own, as far as the participant decides
/// it: when the first attempt fails, a relay is started; when the grace
/// period is over, the participant connects again; and when that attempt
/// succeeds, the participant is in session and stays there through every
/// line and every outgoing message that follows.
pub proof fn lemma_fallback_reaches_session(then: Seq<ClientEventView>)
    requires
        forall|i: int|
            0 <= i < then.len() ==> !(#[trigger] then[i] is TransportClosed) && !(
            then[i] is OutboundClosed),
    ensures
        action_on(ClientPhase::Connecting, ClientEventView::ConnectFailed)
            == ClientActionView::StartRelay,
        action_on(
            phase_after(ClientPhase::Connecting, ClientEventView::ConnectFailed),
            ClientEventView::GraceElapsed,
        ) == ClientActionView::Connect,
        phase_after_all(
            ClientPhase::Connecting,
            seq![
                ClientEventView::ConnectFailed,
                ClientEventView::GraceElapsed,
                ClientEventView::Connected,
            ] + then,
        ) == ClientPhase::Session,
{
    let first = seq![
        ClientEventView::ConnectFailed,
        ClientEventView::GraceElapsed,
        ClientEventView::Connected,
    ];
    let events = first + then;
    assert(events[0] == ClientEventView::ConnectFailed);
    assert(events.skip(1)[0] == ClientEventView::GraceElapsed);
    assert(events.skip(1).skip(1)[0] == ClientEventView::Connected);
    assert(events.skip(1).skip(1).skip(1) =~= then);
    lemma_session_goes_on(then);
    reveal_with_fuel(phase_after_all, 4);
}

impl ClientPhase {
    /// The phase in which a participant begins: its first attempt to connect
    /// is under way.
    pub fn start() -> (r: ClientPhase)
        ensures
            r == ClientPhase::Connecting,
    {
        ClientPhase::Connecting
    }

    /// Whether the participant is over.
    pub fn is_ended(&self) -> (r: bool)
        ensures
            r == (*self == ClientPhase::Ended),
    {
        match self {
            ClientPhase::Ended => true,
            _ => false,
        }
    }

    /// Handles one event: the next phase, and what is to be done.
    pub fn step(self, event: &ClientEvent) -> (r: (ClientPhase, ClientAction))
        ensures
            r.0 == phase_after(self, event@),
            r.1@ == action_on(self, event@),
    {
        match self {
            ClientPhase::Connecting => match event {
                ClientEvent::Connected => (ClientPhase::Session, ClientAction::Idle),
                ClientEvent::ConnectFailed => (ClientPhase::Hosting, ClientAction::StartRelay),
                _ => (self, ClientAction::Idle),
            },
            ClientPhase::Hosting => match event {
                ClientEvent::GraceElapsed => (ClientPhase::Retrying, ClientAction::Connect),
                _ => (self, ClientAction::Idle),
            },
            ClientPhase::Retrying => match event {
                ClientEvent::Connected => (ClientPhase::Session, ClientAction::Idle),
                ClientEvent::ConnectFailed => (ClientPhase::Ended, ClientAction::Stop),
                _ => (self, ClientAction::Idle),
            },
            ClientPhase::Session => match event {
                ClientEvent::Line(line) => match decode(line.as_slice()) {
                    Ok(msg) => (ClientPhase::Session, ClientAction::Deliver(msg)),
                    Err(_) => (ClientPhase::Session, ClientAction::Idle),
                },
                ClientEvent::Outbound(msg) => (ClientPhase::Session, ClientAction::Write(encode(msg))),
                ClientEvent::TransportClosed => (ClientPhase::Ended, ClientAction::Stop),
                ClientEvent::OutboundClosed => (ClientPhase::Ended, ClientAction::Stop),
                _ => (self, ClientAction::Idle),
            },
            ClientPhase::Ended => (self, ClientAction::Idle),
        }
    }
}

/// What a participant sends when it enters a room: its join, and a notice
/// for the others to read.
pub open spec fn join_messages_spec(user_name: Seq<char>) -> Seq<MessageTypeView> {
    seq![
        MessageTypeView::Connect(ConnectView { user_name }),
        MessageTypeView::Notification(
            NotificationView { message: user_name + " has joined the chat"@ },
        ),
    ]
}

/// What a participant sends when it goes: its leave, with the address it
/// spoke to, and a notice for the others to read.
pub open spec fn leave_messages_spec(user_name: Seq<char>, ip: Seq<char>) -> Seq<MessageTypeView> {
    seq![
        MessageTypeView::Disconnect(DisconnectView { user_name, ip }),
        MessageTypeView::Notification(NotificationView { message: user_name + " has left the chat"@ }),
    ]
}

/// The views of a vector of messages.
pub open spec fn message_views(msgs: Seq<MessageType>) -> Seq<MessageTypeView> {
    msgs.map_values(|m: MessageType| m@)
}

/// The messages with which a participant enters a room, in the order in
/// which they are sent.
pub fn join_messages(user_name: &str) -> (r: Vec<MessageType>)
    ensures
        message_views(r@) == join_messages_spec(user_name@),
{
    let mut r: Vec<MessageType> = Vec::new();
    r.push(MessageType::Connect(Connect { user_name: user_name.to_owned() }));
    r.push(
        MessageType::Notification(
            Notification { message: user_name.to_owned().concat(" has joined the chat") },
        ),
    );
    assert(message_views(r@) =~= join_messages_spec(user_name@));
    r
}

/// The messages with which a participant leaves, in the order in which
/// they are sent.
pub fn leave_messages(user_name: &str, ip: &str) -> (r: Vec<MessageType>)
    ensures
        message_views(r@) == leave_messages_spec(user_name@, ip@),
{
    let mut r: Vec<MessageType> = Vec::new();
    r.push(MessageType::Disconnect(Disconnect { user_name: user_name.to_owned(), ip: ip.to_owned() }));
    r.push(
        MessageType::Notification(
            Notification { message: user_name.to_owned().concat(" has left the chat") },
        ),
    );
    assert(message_views(r@) =~= leave_messages_spec(user_name@, ip@));
    r
}

} // verus!
