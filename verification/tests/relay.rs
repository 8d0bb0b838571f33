use rust_chat::codec::{decode, encode};
use rust_chat::message::{Connect, Disconnect, Message, MessageType, Notification};
use rust_chat::presence::{adopt_snapshot, PresenceTable};
use rust_chat::roster::UserList;
use rust_chat::relay::{Delivery, PeerAddr, PeerIp, Registry, Room, SessionEvent, SessionPhase};
use std::sync::Arc;

fn addr(last: u32, port: u16) -> PeerAddr {
    PeerAddr { ip: PeerIp::V4(0x7f00_0000 + last), port }
}

fn join(name: &str) -> MessageType {
    MessageType::Connect(Connect { user_name: name.to_string() })
}

fn leave(name: &str) -> MessageType {
    MessageType::Disconnect(Disconnect { user_name: name.to_string(), ip: "127.0.0.1:5000".to_string() })
}

fn chat(author: &str, body: &str, timestamp: &str) -> MessageType {
    MessageType::Message(Message {
        user_name: author.to_string(),
        profile_picture: Vec::new(),
        message: body.to_string(),
        image: Arc::new(Vec::new()),
        timestamp: timestamp.to_string(),
        uuid: "id-1".to_string(),
        uuid_profile_picture: "id-2".to_string(),
    })
}

fn lines_for(deliveries: &[Delivery], to: PeerAddr) -> Vec<Vec<u8>> {
    deliveries.iter().filter(|d| d.to == to).map(|d| d.line.clone()).collect()
}

fn snapshot_names(line: &[u8]) -> Vec<String> {
    match decode(line) {
        Ok(MessageType::UserList(users)) => {
            let mut names = users.names();
            names.sort();
            names
        }
        other => panic!("not a presence snapshot: {:?}", other),
    }
}

#[test]
fn chat_goes_once_to_each_other_session() {
    let mut relay: Room<u8> = Room::new("main".to_string());
    let peers: Vec<PeerAddr> = (1..=5).map(|i| addr(i, 40000 + i as u16)).collect();
    for (i, p) in peers.iter().enumerate() {
        assert_eq!(relay.accept(*p, i as u8), None);
    }
    let line = encode(&chat("alice", "hi", "10:00"));
    let sent = relay.on_line(peers[2], &line);
    assert_eq!(sent.len(), 4);
    for p in &peers {
        let got = lines_for(&sent, *p);
        if *p == peers[2] {
            assert!(got.is_empty());
        } else {
            assert_eq!(got, vec![line.clone()]);
        }
    }
}

#[test]
fn line_is_forwarded_byte_for_byte() {
    let mut relay: Room<()> = Room::new("main".to_string());
    relay.accept(addr(1, 1), ());
    relay.accept(addr(2, 2), ());
    let line = b"  {\"Notification\" : {\"message\":\"spaced\", \"extra\": [1, 2]}}  \n".to_vec();
    let sent = relay.on_line(addr(1, 1), &line);
    assert_eq!(sent.len(), 1);
    assert_eq!(sent[0].to, addr(2, 2));
    assert_eq!(sent[0].line, line);
}

#[test]
fn join_sends_presence_to_everyone_then_the_line_to_the_others() {
    let mut relay: Room<()> = Room::new("main".to_string());
    let a = addr(1, 1);
    let b = addr(2, 2);
    relay.accept(a, ());
    relay.accept(b, ());
    let line = encode(&join("alice"));
    let sent = relay.on_line(a, &line);
    assert_eq!(sent.len(), 3);
    assert_eq!(sent[0].to, a);
    assert_eq!(sent[1].to, b);
    assert_eq!(sent[0].line, sent[1].line);
    assert_eq!(snapshot_names(&sent[0].line), vec!["alice".to_string()]);
    assert_eq!(sent[2].to, b);
    assert_eq!(sent[2].line, line);
}

#[test]
fn presence_converges() {
    let mut relay: Room<()> = Room::new("main".to_string());
    let a = addr(1, 1);
    let b = addr(2, 2);
    let c = addr(3, 3);
    relay.accept(a, ());
    relay.accept(b, ());
    relay.accept(c, ());
    relay.on_line(a, &encode(&join("alice")));
    let sent = relay.on_line(b, &encode(&join("bob")));
    for p in [a, b, c] {
        let got = lines_for(&sent, p);
        assert_eq!(snapshot_names(&got[0]), vec!["alice".to_string(), "bob".to_string()]);
    }
    let sent = relay.on_line(a, &encode(&leave("alice")));
    for p in [a, b, c] {
        let got = lines_for(&sent, p);
        assert_eq!(snapshot_names(&got[0]), vec!["bob".to_string()]);
    }
    assert!(relay.presence_table().contains("bob"));
    assert!(!relay.presence_table().contains("alice"));
}

#[test]
fn malformed_line_does_not_stop_the_next() {
    let mut relay: Room<()> = Room::new("main".to_string());
    let a = addr(1, 1);
    let b = addr(2, 2);
    relay.accept(a, ());
    relay.accept(b, ());
    assert!(relay.on_line(a, b"{\"Connect\":{\"user_name\":\n").is_empty());
    assert!(relay.on_line(a, b"{\"Wave\":{}}\n").is_empty());
    assert!(relay.on_line(a, b"\xff\xff\n").is_empty());
    assert!(!relay.presence_table().contains("alice"));
    let line = encode(&chat("alice", "still here", "10:01"));
    let sent = relay.on_line(a, &line);
    assert_eq!(sent.len(), 1);
    assert_eq!(sent[0].to, b);
    assert_eq!(sent[0].line, line);
}

#[test]
fn alice_joins_and_says_hi() {
    let mut relay: Room<()> = Room::new("main".to_string());
    let a = PeerAddr { ip: PeerIp::V4(0x7f00_0001), port: 40001 };
    let b = PeerAddr { ip: PeerIp::V4(0x7f00_0001), port: 40002 };
    relay.accept(a, ());
    relay.accept(b, ());
    let mut seen_by_b: Vec<MessageType> = Vec::new();
    for msg in [join("alice"), chat("alice", "hi", "10:00")] {
        for d in relay.on_line(a, &encode(&msg)) {
            if d.to == b {
                seen_by_b.push(decode(&d.line).unwrap());
            }
        }
    }
    let snapshot_at = seen_by_b
        .iter()
        .position(|m| matches!(m, MessageType::UserList(u) if u.contains_key("alice")))
        .unwrap();
    let chat_at = seen_by_b
        .iter()
        .position(|m| matches!(m, MessageType::Message(m) if m.message == "hi"))
        .unwrap();
    assert!(snapshot_at < chat_at);
    assert_eq!(seen_by_b.len(), 3);
}

#[test]
fn closed_session_gets_nothing_and_presence_stays() {
    let mut relay: Room<u8> = Room::new("main".to_string());
    let a = addr(1, 1);
    let b = addr(2, 2);
    relay.accept(a, 1);
    relay.accept(b, 2);
    relay.on_line(b, &encode(&join("bob")));
    assert_eq!(relay.close(b), Some(2));
    assert_eq!(relay.close(b), None);
    assert!(relay.presence_table().contains("bob"));
    let sent = relay.on_line(a, &encode(&chat("alice", "anyone?", "10:02")));
    assert!(sent.is_empty());
    assert_eq!(relay.registry().len(), 1);
}

#[test]
fn sender_that_is_not_registered_reaches_everyone() {
    let mut relay: Room<()> = Room::new("main".to_string());
    relay.accept(addr(1, 1), ());
    relay.accept(addr(2, 2), ());
    let line = encode(&MessageType::Notification(Notification { message: "n".to_string() }));
    let sent = relay.on_line(addr(9, 9), &line);
    assert_eq!(sent.len(), 2);
}

#[test]
fn on_message_matches_on_line() {
    let mut one: Room<()> = Room::new("main".to_string());
    let mut two: Room<()> = Room::new("main".to_string());
    for r in [&mut one, &mut two] {
        r.accept(addr(1, 1), ());
        r.accept(addr(2, 2), ());
    }
    let msg = join("alice");
    let line = encode(&msg);
    let a = one.on_line(addr(1, 1), &line);
    let b = two.on_message(addr(1, 1), &msg, &line);
    assert_eq!(a.len(), b.len());
    for (x, y) in a.iter().zip(b.iter()) {
        assert_eq!(x.to, y.to);
        assert_eq!(x.line, y.line);
    }
}

#[test]
fn registry_keeps_each_address_once() {
    let mut registry: Registry<&str> = Registry::new();
    assert_eq!(registry.register(addr(1, 1), "first"), None);
    assert_eq!(registry.register(addr(2, 2), "second"), None);
    assert_eq!(registry.register(addr(1, 1), "again"), Some("first"));
    assert_eq!(registry.len(), 2);
    assert_eq!(registry.everyone(), vec![addr(1, 1), addr(2, 2)]);
    assert_eq!(registry.handle(addr(1, 1)), Some(&"again"));
    assert_eq!(registry.handle(addr(3, 3)), None);
    assert!(registry.contains(addr(2, 2)));
    assert!(!registry.contains(addr(2, 3)));
}

#[test]
fn registry_unregister_keeps_order() {
    let mut registry: Registry<u8> = Registry::new();
    for i in 1..=4u8 {
        registry.register(addr(i as u32, 1), i);
    }
    assert_eq!(registry.unregister(addr(2, 1)), Some(2));
    assert_eq!(registry.unregister(addr(2, 1)), None);
    assert_eq!(registry.everyone(), vec![addr(1, 1), addr(3, 1), addr(4, 1)]);
    assert_eq!(registry.others(addr(3, 1)), vec![addr(1, 1), addr(4, 1)]);
    assert_eq!(registry.others(addr(9, 1)), vec![addr(1, 1), addr(3, 1), addr(4, 1)]);
}

#[test]
fn addresses_differ_by_port_and_family() {
    assert_ne!(addr(1, 1), addr(1, 2));
    assert_ne!(
        PeerAddr { ip: PeerIp::V4(1), port: 1 },
        PeerAddr { ip: PeerIp::V6(1), port: 1 }
    );
}

#[test]
fn apply_control_join_and_leave() {
    let mut table = PresenceTable::new();
    let first = table.apply_control(&join("alice")).unwrap();
    match first {
        MessageType::UserList(users) => {
            assert_eq!(users.len(), 1);
            assert_eq!(users.get("alice"), Some(&"online".to_string()));
        }
        other => panic!("not a presence snapshot: {:?}", other),
    }
    assert!(table.apply_control(&join("bob")).is_some());
    assert_eq!(table.snapshot().len(), 2);
    assert!(table.apply_control(&leave("alice")).is_some());
    assert!(!table.contains("alice"));
    assert!(table.contains("bob"));
}

#[test]
fn apply_control_join_twice_is_join_once() {
    let mut table = PresenceTable::new();
    table.apply_control(&join("alice"));
    table.apply_control(&join("alice"));
    assert!(table.contains("alice"));
    assert_eq!(table.snapshot().len(), 1);
}

#[test]
fn apply_control_leave_of_absent_changes_nothing() {
    let mut table = PresenceTable::new();
    table.apply_control(&join("bob"));
    let snapshot = table.apply_control(&leave("alice"));
    assert!(snapshot.is_some());
    assert_eq!(table.snapshot().len(), 1);
    assert!(table.contains("bob"));
}

#[test]
fn apply_control_ignores_other_messages() {
    let mut table = PresenceTable::new();
    table.apply_control(&join("bob"));
    assert_eq!(table.apply_control(&chat("bob", "hi", "10:00")), None);
    assert_eq!(table.apply_control(&MessageType::Notification(Notification { message: "n".to_string() })), None);
    assert_eq!(table.apply_control(&MessageType::UserList(UserList::new())), None);
    assert_eq!(table.snapshot().len(), 1);
}

#[test]
fn room_broadcast_reaches_everyone() {
    let mut room: Room<()> = Room::new("main".to_string());
    assert_eq!(room.room_name(), "main");
    room.accept(addr(1, 1), ());
    room.accept(addr(2, 2), ());
    let msg = MessageType::Notification(Notification { message: "to all".to_string() });
    let sent = room.broadcast(&msg);
    assert_eq!(sent.len(), 2);
    assert_eq!(sent[0].to, addr(1, 1));
    assert_eq!(sent[1].to, addr(2, 2));
    assert_eq!(sent[0].line, encode(&msg));
    assert_eq!(sent[1].line, encode(&msg));
}

#[test]
fn registry_broadcast_plans() {
    let mut registry: Registry<()> = Registry::new();
    assert!(registry.broadcast(b"x\n").is_empty());
    registry.register(addr(1, 1), ());
    registry.register(addr(2, 2), ());
    registry.register(addr(3, 3), ());
    let all = registry.broadcast(b"x\n");
    assert_eq!(all.iter().map(|d| d.to).collect::<Vec<_>>(), vec![addr(1, 1), addr(2, 2), addr(3, 3)]);
    assert!(all.iter().all(|d| d.line == b"x\n".to_vec()));
    let others = registry.broadcast_to_others(addr(2, 2), b"y\n");
    assert_eq!(others.iter().map(|d| d.to).collect::<Vec<_>>(), vec![addr(1, 1), addr(3, 3)]);
    assert!(others.iter().all(|d| d.line == b"y\n".to_vec()));
}

#[test]
fn session_lifecycle() {
    let mut phase = SessionPhase::Accepted;
    assert!(!phase.is_live());
    phase = phase.advance(SessionEvent::Registered);
    assert_eq!(phase, SessionPhase::Registered);
    assert!(phase.is_live());
    phase = phase.advance(SessionEvent::ReaderStarted);
    assert_eq!(phase, SessionPhase::Reading);
    for _ in 0..3 {
        phase = phase.advance(SessionEvent::Line);
        assert_eq!(phase, SessionPhase::Reading);
    }
    phase = phase.advance(SessionEvent::EndOfStream);
    assert_eq!(phase, SessionPhase::Closing);
    assert!(!phase.is_live());
    phase = phase.advance(SessionEvent::Removed);
    assert_eq!(phase, SessionPhase::Unregistered);
    for event in [
        SessionEvent::Registered,
        SessionEvent::ReaderStarted,
        SessionEvent::Line,
        SessionEvent::EndOfStream,
        SessionEvent::ReadError,
        SessionEvent::Removed,
    ] {
        assert_eq!(phase.advance(event), SessionPhase::Unregistered);
    }
    assert_eq!(SessionPhase::Reading.advance(SessionEvent::ReadError), SessionPhase::Closing);
    assert_eq!(SessionPhase::Accepted.advance(SessionEvent::Line), SessionPhase::Accepted);
}

#[test]
fn snapshot_replaces_the_view_that_was_held() {
    let mut held = UserList::new();
    held.insert("stale".to_string(), "online".to_string());
    held.insert("bob".to_string(), "away".to_string());
    let mut table = UserList::new();
    table.insert("bob".to_string(), "online".to_string());
    table.insert("carol".to_string(), "online".to_string());
    assert!(adopt_snapshot(&mut held, &MessageType::UserList(table.clone())));
    assert!(held == table);
    assert!(!held.contains_key("stale"));
    assert_eq!(held.get("bob"), Some(&"online".to_string()));
}

#[test]
fn other_messages_leave_the_view() {
    let mut held = UserList::new();
    held.insert("bob".to_string(), "online".to_string());
    assert!(!adopt_snapshot(&mut held, &join("alice")));
    assert!(!adopt_snapshot(&mut held, &leave("bob")));
    assert!(!adopt_snapshot(&mut held, &chat("bob", "hi", "10:00")));
    assert_eq!(held.len(), 1);
    assert!(held.contains_key("bob"));
}

#[test]
fn empty_snapshot_empties_the_view() {
    let mut held = UserList::new();
    held.insert("bob".to_string(), "online".to_string());
    assert!(adopt_snapshot(&mut held, &MessageType::UserList(UserList::new())));
    assert!(held.is_empty());
}
