//! The messages that travel between participants and relay.

use vstd::prelude::*;
use std::sync::Arc;
use crate::roster::UserList;
use crate::stamps::{fresh_id, now_text};

verus! {

/// A message written by a user, with an optional picture attached.
#[derive(Debug, PartialEq)]
pub struct Message {
    pub user_name: String,
    pub profile_picture: Vec<u8>,
    pub message: String,
    pub image: Arc<Vec<u8>>,
    pub timestamp: String,
    pub uuid: String,
    pub uuid_profile_picture: String,
}

/// What a [`Message`] holds, as mathematical values.
pub struct MessageView {
    pub user_name: Seq<char>,
    pub profile_picture: Seq<u8>,
    pub message: Seq<char>,
    pub image: Seq<u8>,
    pub timestamp: Seq<char>,
    pub uuid: Seq<char>,
    pub uuid_profile_picture: Seq<char>,
}

impl View for Message {
    type V = MessageView;

    open spec fn view(&self) -> MessageView {
        MessageView {
            user_name: self.user_name@,
            profile_picture: self.profile_picture@,
            message: self.message@,
            image: (*self.image)@,
            timestamp: self.timestamp@,
            uuid: self.uuid@,
            uuid_profile_picture: self.uuid_profile_picture@,
        }
    }
}

impl Default for Message {
    /// A message to stand in where none was written yet: from the user
    /// `default`, with the text `default message` and no pictures, stamped
    /// with the local time and with two fresh identifiers.
    fn default() -> (r: Self)
        ensures
            r.user_name@ == "default"@,
            r.profile_picture@ == Seq::<u8>::empty(),
            r.message@ == "default message"@,
            r@.image == Seq::<u8>::empty(),
    {
        Self {
            user_name: "default".to_owned(),
            profile_picture: Vec::<u8>::new(),
            message: "default message".to_owned(),
            image: Arc::new(Vec::<u8>::new()),
            timestamp: now_text(),
            uuid: fresh_id(),
            uuid_profile_picture: fresh_id(),
        }
    }
}

impl Clone for Message {
    fn clone(&self) -> (r: Self)
        ensures
            r@ == self@,
    {
        let image: Vec<u8> = (*self.image).clone();
        Message {
            user_name: self.user_name.clone(),
            profile_picture: self.profile_picture.clone(),
            message: self.message.clone(),
            image: Arc::new(image),
            timestamp: self.timestamp.clone(),
            uuid: self.uuid.clone(),
            uuid_profile_picture: self.uuid_profile_picture.clone(),
        }
    }
}

/// Informational text, such as that somebody joined or left.
#[derive(Debug, PartialEq)]
pub struct Notification {
    pub message: String,
}

/// What a [`Notification`] holds.
pub struct NotificationView {
    pub message: Seq<char>,
}

impl View for Notification {
    type V = NotificationView;

    open spec fn view(&self) -> NotificationView {
        NotificationView { message: self.message@ }
    }
}

impl Clone for Notification {
    fn clone(&self) -> (r: Self)
        ensures
            r@ == self@,
    {
        Notification { message: self.message.clone() }
    }
}

/// Control message: the named user is now present.
#[derive(Debug, PartialEq)]
pub struct Connect {
    pub user_name: String,
}

/// What a [`Connect`] holds.
pub struct ConnectView {
    pub user_name: Seq<char>,
}

impl View for Connect {
    type V = ConnectView;

    open spec fn view(&self) -> ConnectView {
        ConnectView { user_name: self.user_name@ }
    }
}

impl Clone for Connect {
    fn clone(&self) -> (r: Self)
        ensures
            r@ == self@,
    {
        Connect { user_name: self.user_name.clone() }
    }
}

/// Control message: the named user is leaving; `ip` is the address it spoke from.
#[derive(Debug, PartialEq)]
pub struct Disconnect {
    pub user_name: String,
    pub ip: String,
}

/// What a [`Disconnect`] holds.
pub struct DisconnectView {
    pub user_name: Seq<char>,
    pub ip: Seq<char>,
}

impl View for Disconnect {
    type V = DisconnectView;

    open spec fn view(&self) -> DisconnectView {
        DisconnectView { user_name: self.user_name@, ip: self.ip@ }
    }
}

impl Clone for Disconnect {
    fn clone(&self) -> (r: Self)
        ensures
            r@ == self@,
    {
        Disconnect { user_name: self.user_name.clone(), ip: self.ip.clone() }
    }
}

/// Everything that is sent over the wire: exactly one of these per line.
#[derive(Debug, PartialEq)]
pub enum MessageType {
    Message(Message),
    Notification(Notification),
    Connect(Connect),
    /// The whole presence table, name to status; replaces what the receiver held.
    UserList(UserList),
    Disconnect(Disconnect),
}

/// What a [`MessageType`] holds.
pub enum MessageTypeView {
    Message(MessageView),
    Notification(NotificationView),
    Connect(ConnectView),
    UserList(Map<Seq<char>, Seq<char>>),
    Disconnect(DisconnectView),
}

impl View for MessageType {
    type V = MessageTypeView;

    open spec fn view(&self) -> MessageTypeView {
        match self {
            MessageType::Message(m) => MessageTypeView::Message(m@),
            MessageType::Notification(n) => MessageTypeView::Notification(n@),
            MessageType::Connect(c) => MessageTypeView::Connect(c@),
            MessageType::UserList(u) => MessageTypeView::UserList(u@),
            MessageType::Disconnect(d) => MessageTypeView::Disconnect(d@),
        }
    }
}

impl Clone for MessageType {
    fn clone(&self) -> (r: Self)
        ensures
            r@ == self@,
    {
        match self {
            MessageType::Message(m) => MessageType::Message(m.clone()),
            MessageType::Notification(n) => MessageType::Notification(n.clone()),
            MessageType::Connect(c) => MessageType::Connect(c.clone()),
            MessageType::UserList(u) => MessageType::UserList(u.clone()),
            MessageType::Disconnect(d) => MessageType::Disconnect(d.clone()),
        }
    }
}

} // verus!
