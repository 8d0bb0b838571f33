use rust_chat::message::{Message, MessageType, Notification};
use rust_chat::roster::UserList;
use rust_chat::state::{State, FSM};
use rust_chat::user::User;
use rust_chat::gif::Gif;

#[test]
fn user_list_starts_empty() {
    let users = UserList::new();
    assert!(users.is_empty());
    assert_eq!(users.len(), 0);
    assert!(!users.contains_key("alice"));
    assert_eq!(users.get("alice"), None);
    assert!(users.names().is_empty());
}

#[test]
fn user_list_insert_and_get() {
    let mut users = UserList::new();
    assert_eq!(users.insert("alice".to_string(), "online".to_string()), None);
    assert_eq!(users.insert("bob".to_string(), "away".to_string()), None);
    assert_eq!(users.len(), 2);
    assert!(!users.is_empty());
    assert!(users.contains_key("alice"));
    assert_eq!(users.get("bob"), Some(&"away".to_string()));
}

#[test]
fn user_list_insert_overwrites() {
    let mut users = UserList::new();
    users.insert("alice".to_string(), "online".to_string());
    users.insert("bob".to_string(), "online".to_string());
    assert_eq!(users.insert("alice".to_string(), "away".to_string()), Some("online".to_string()));
    assert_eq!(users.len(), 2);
    assert_eq!(users.get("alice"), Some(&"away".to_string()));
    assert_eq!(users.get("bob"), Some(&"online".to_string()));
}

#[test]
fn user_list_remove() {
    let mut users = UserList::new();
    users.insert("alice".to_string(), "online".to_string());
    users.insert("bob".to_string(), "away".to_string());
    assert_eq!(users.remove("carol"), None);
    assert_eq!(users.len(), 2);
    assert_eq!(users.remove("alice"), Some("online".to_string()));
    assert_eq!(users.len(), 1);
    assert!(!users.contains_key("alice"));
    assert!(users.contains_key("bob"));
    assert_eq!(users.remove("alice"), None);
}

#[test]
fn user_list_names_each_once() {
    let mut users = UserList::new();
    users.insert("alice".to_string(), "online".to_string());
    users.insert("bob".to_string(), "online".to_string());
    users.insert("alice".to_string(), "away".to_string());
    let mut names = users.names();
    names.sort();
    assert_eq!(names, vec!["alice".to_string(), "bob".to_string()]);
}

#[test]
fn user_list_equality_ignores_order() {
    let mut a = UserList::new();
    a.insert("alice".to_string(), "online".to_string());
    a.insert("bob".to_string(), "away".to_string());
    let mut b = UserList::new();
    b.insert("bob".to_string(), "away".to_string());
    b.insert("alice".to_string(), "online".to_string());
    assert!(a == b);
    b.insert("alice".to_string(), "away".to_string());
    assert!(a != b);
    b.remove("alice");
    assert!(a != b);
    let mut c = UserList::new();
    c.insert("alice".to_string(), "online".to_string());
    c.insert("carol".to_string(), "away".to_string());
    assert!(a != c);
}

#[test]
fn user_list_clone_is_equal() {
    let mut a = UserList::new();
    a.insert("alice".to_string(), "online".to_string());
    let b = a.clone();
    assert!(a == b);
    assert!(a == a.duplicate());
}

#[test]
fn message_clone_is_equal() {
    let m = MessageType::Notification(Notification { message: "x".to_string() });
    assert_eq!(m.clone(), m);
}

#[test]
fn default_message_has_fixed_fields() {
    let a = Message::default();
    assert_eq!(a.user_name, "default");
    assert_eq!(a.message, "default message");
    assert!(a.profile_picture.is_empty());
    assert!(a.image.is_empty());
    assert!(!a.timestamp.is_empty());
    assert_eq!(a.uuid.len(), 36);
    assert_ne!(a.uuid, a.uuid_profile_picture);
}

#[test]
fn fsm_walks_from_start_to_chat() {
    let mut fsm = FSM::new();
    assert_eq!(fsm.handle(), State::Start);
    fsm.next();
    assert_eq!(fsm.handle(), State::Chat);
    assert_eq!(fsm.handle(), State::Chat);
}

#[test]
fn state_next_of_start_is_chat() {
    assert_eq!(State::Start.next(), State::Chat);
    assert_eq!(State::Start.handle(), State::Start);
    assert_eq!(State::Chat.handle(), State::Chat);
}

#[test]
fn user_new_keeps_name_and_picture() {
    let user = User::new("alice".to_string(), vec![1, 2, 3]);
    assert_eq!(user.name, "alice");
    assert_eq!(user.picture, vec![1, 2, 3]);
}

#[test]
fn gif_clone_keeps_fields() {
    let gif = Gif {
        id: "1".to_string(),
        url: "https://example.org/a.gif".to_string(),
        tinygif_url: "https://example.org/a-tiny.gif".to_string(),
        gif_bytes: vec![71, 73, 70],
    };
    let copy = gif.clone();
    assert_eq!(copy.id, gif.id);
    assert_eq!(copy.url, gif.url);
    assert_eq!(copy.tinygif_url, gif.tinygif_url);
    assert_eq!(copy.gif_bytes, gif.gif_bytes);
}
