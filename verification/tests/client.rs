use rust_chat::client::{
    join_messages, leave_messages, ClientAction, ClientEvent, ClientPhase, CONNECT_TIMEOUT_MS,
    GRACE_PERIOD_MS, QUEUE_CAPACITY,
};
use rust_chat::codec::encode;
use rust_chat::message::{Connect, Disconnect, MessageType, Notification};

#[test]
fn relay_found_at_once() {
    let phase = ClientPhase::start();
    assert_eq!(phase, ClientPhase::Connecting);
    let (phase, action) = phase.step(&ClientEvent::Connected);
    assert_eq!(phase, ClientPhase::Session);
    assert!(matches!(action, ClientAction::Idle));
}

#[test]
fn no_relay_found_starts_one_and_connects() {
    let (phase, action) = ClientPhase::start().step(&ClientEvent::ConnectFailed);
    assert_eq!(phase, ClientPhase::Hosting);
    assert!(matches!(action, ClientAction::StartRelay));
    let (phase, action) = phase.step(&ClientEvent::GraceElapsed);
    assert_eq!(phase, ClientPhase::Retrying);
    assert!(matches!(action, ClientAction::Connect));
    let (phase, action) = phase.step(&ClientEvent::Connected);
    assert_eq!(phase, ClientPhase::Session);
    assert!(matches!(action, ClientAction::Idle));
}

#[test]
fn second_failure_ends_it() {
    let (phase, _) = ClientPhase::start().step(&ClientEvent::ConnectFailed);
    let (phase, _) = phase.step(&ClientEvent::GraceElapsed);
    let (phase, action) = phase.step(&ClientEvent::ConnectFailed);
    assert_eq!(phase, ClientPhase::Ended);
    assert!(phase.is_ended());
    assert!(matches!(action, ClientAction::Stop));
}

#[test]
fn session_delivers_a_line_that_decodes() {
    let msg = MessageType::Connect(Connect { user_name: "alice".to_string() });
    let (phase, action) = ClientPhase::Session.step(&ClientEvent::Line(encode(&msg)));
    assert_eq!(phase, ClientPhase::Session);
    match action {
        ClientAction::Deliver(got) => assert_eq!(got, msg),
        other => panic!("not delivered: {:?}", other),
    }
}

#[test]
fn session_drops_a_line_that_does_not_decode() {
    let (phase, action) = ClientPhase::Session.step(&ClientEvent::Line(b"{oops\n".to_vec()));
    assert_eq!(phase, ClientPhase::Session);
    assert!(matches!(action, ClientAction::Idle));
    let msg = MessageType::Notification(Notification { message: "after".to_string() });
    let (_, action) = phase.step(&ClientEvent::Line(encode(&msg)));
    assert!(matches!(action, ClientAction::Deliver(got) if got == msg));
}

#[test]
fn session_writes_an_outgoing_message_as_its_line() {
    let msg = MessageType::Connect(Connect { user_name: "alice".to_string() });
    let (phase, action) = ClientPhase::Session.step(&ClientEvent::Outbound(msg.clone()));
    assert_eq!(phase, ClientPhase::Session);
    match action {
        ClientAction::Write(line) => assert_eq!(line, b"{\"Connect\":{\"user_name\":\"alice\"}}\n".to_vec()),
        other => panic!("not written: {:?}", other),
    }
}

#[test]
fn session_ends_with_the_transport_or_the_foreground() {
    let (phase, action) = ClientPhase::Session.step(&ClientEvent::TransportClosed);
    assert_eq!(phase, ClientPhase::Ended);
    assert!(matches!(action, ClientAction::Stop));
    let (phase, action) = ClientPhase::Session.step(&ClientEvent::OutboundClosed);
    assert_eq!(phase, ClientPhase::Ended);
    assert!(matches!(action, ClientAction::Stop));
}

#[test]
fn ended_stays_ended() {
    let msg = MessageType::Connect(Connect { user_name: "alice".to_string() });
    let events = vec![
        ClientEvent::Connected,
        ClientEvent::ConnectFailed,
        ClientEvent::GraceElapsed,
        ClientEvent::Line(encode(&msg)),
        ClientEvent::Outbound(msg),
        ClientEvent::TransportClosed,
        ClientEvent::OutboundClosed,
    ];
    let mut phase = ClientPhase::Ended;
    for event in &events {
        let (next, action) = phase.step(event);
        assert!(matches!(action, ClientAction::Idle));
        phase = next;
    }
    assert_eq!(phase, ClientPhase::Ended);
}

#[test]
fn events_out_of_place_change_nothing() {
    let msg = MessageType::Connect(Connect { user_name: "alice".to_string() });
    let (phase, action) = ClientPhase::Connecting.step(&ClientEvent::Outbound(msg));
    assert_eq!(phase, ClientPhase::Connecting);
    assert!(matches!(action, ClientAction::Idle));
    let (phase, action) = ClientPhase::Hosting.step(&ClientEvent::Connected);
    assert_eq!(phase, ClientPhase::Hosting);
    assert!(matches!(action, ClientAction::Idle));
    let (phase, action) = ClientPhase::Session.step(&ClientEvent::ConnectFailed);
    assert_eq!(phase, ClientPhase::Session);
    assert!(matches!(action, ClientAction::Idle));
}

#[test]
fn limits_are_what_they_are() {
    assert_eq!(CONNECT_TIMEOUT_MS, 5000);
    assert_eq!(GRACE_PERIOD_MS, 500);
    assert_eq!(QUEUE_CAPACITY, 128);
}

#[test]
fn join_messages_are_join_and_notice() {
    assert_eq!(
        join_messages("alice"),
        vec![
            MessageType::Connect(Connect { user_name: "alice".to_string() }),
            MessageType::Notification(Notification { message: "alice has joined the chat".to_string() }),
        ]
    );
}

#[test]
fn leave_messages_are_leave_and_notice() {
    assert_eq!(
        leave_messages("alice", "192.168.1.7:5000"),
        vec![
            MessageType::Disconnect(Disconnect {
                user_name: "alice".to_string(),
                ip: "192.168.1.7:5000".to_string(),
            }),
            MessageType::Notification(Notification { message: "alice has left the chat".to_string() }),
        ]
    );
}
