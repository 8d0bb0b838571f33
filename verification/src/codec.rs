//! The wire codec: one message is one line, a JSON object whose single
//! member is named after the kind of message, followed by a line feed.

use vstd::prelude::*;
use std::sync::Arc;
use crate::json::{
    array_value, as_array, as_object, as_text, as_unsigned, json_bytes, json_parse, key_views,
    new_object, number_value, object_fields, object_get, object_insert, object_keys, object_value,
    parse_value, print_value, text_value, value_tree, value_trees, JsonTree,
};
use crate::message::{
    Connect, ConnectView, Disconnect, DisconnectView, Message, MessageType, MessageTypeView,
    MessageView, Notification, NotificationView,
};
use crate::roster::{name_views, UserList};

verus! {

/// Why a line was not taken for a message.
#[derive(Debug, Clone, Copy, PartialEq, Eq, Structural)]
pub enum DecodeError {
    /// The bytes are not a JSON text in UTF-8.
    Syntax,
    /// The JSON text is not an object with one member, or the member does
    /// not hold the fields of its kind.
    Structure,
    /// The single member carries a name that is no kind of message.
    UnknownVariant,
}

/// The line feed that ends every line.
pub const LINE_FEED: u8 = 10;

/// A byte string on the wire: the array of its bytes as numbers.
pub open spec fn bytes_tree(bytes: Seq<u8>) -> JsonTree {
    JsonTree::Array(bytes.map_values(|b: u8| JsonTree::Unsigned(b as u64)))
}

/// A presence map on the wire: an object with one text member for each name.
pub open spec fn statuses_tree(statuses: Map<Seq<char>, Seq<char>>) -> JsonTree {
    JsonTree::Object(statuses.map_values(|s: Seq<char>| JsonTree::Text(s)))
}

/// The fields of a user's message on the wire.
pub open spec fn message_tree(m: MessageView) -> JsonTree {
    JsonTree::Object(
        Map::<Seq<char>, JsonTree>::empty().insert("user_name"@, JsonTree::Text(m.user_name)).insert(
            "profile_picture"@,
            bytes_tree(m.profile_picture),
        ).insert("message"@, JsonTree::Text(m.message)).insert("image"@, bytes_tree(m.image)).insert(
            "timestamp"@,
            JsonTree::Text(m.timestamp),
        ).insert("uuid"@, JsonTree::Text(m.uuid)).insert(
            "uuid_profile_picture"@,
            JsonTree::Text(m.uuid_profile_picture),
        ),
    )
}

/// The fields of a notice on the wire.
pub open spec fn notification_tree(n: NotificationView) -> JsonTree {
    JsonTree::Object(Map::<Seq<char>, JsonTree>::empty().insert("message"@, JsonTree::Text(n.message)))
}

/// The fields of a join on the wire.
pub open spec fn connect_tree(c: ConnectView) -> JsonTree {
    JsonTree::Object(
        Map::<Seq<char>, JsonTree>::empty().insert("user_name"@, JsonTree::Text(c.user_name)),
    )
}

/// The fields of a leave on the wire.
pub open spec fn disconnect_tree(d: DisconnectView) -> JsonTree {
    JsonTree::Object(
        Map::<Seq<char>, JsonTree>::empty().insert("user_name"@, JsonTree::Text(d.user_name)).insert(
            "ip"@,
            JsonTree::Text(d.ip),
        ),
    )
}

/// An object with the single member `tag`.
pub open spec fn tagged(tag: Seq<char>, content: JsonTree) -> JsonTree {
    JsonTree::Object(Map::<Seq<char>, JsonTree>::empty().insert(tag, content))
}

/// A message on the wire: an object whose one member says which kind it is.
pub open spec fn envelope_tree(e: MessageTypeView) -> JsonTree {
    match e {
        MessageTypeView::Message(m) => tagged("Message"@, message_tree(m)),
        MessageTypeView::Notification(n) => tagged("Notification"@, notification_tree(n)),
        MessageTypeView::Connect(c) => tagged("Connect"@, connect_tree(c)),
        MessageTypeView::UserList(u) => tagged("UserList"@, statuses_tree(u)),
        MessageTypeView::Disconnect(d) => tagged("Disconnect"@, disconnect_tree(d)),
    }
}

/// The line that carries a message: its compact JSON text and one line feed.
pub open spec fn encode_spec(e: MessageTypeView) -> Seq<u8> {
    json_bytes(envelope_tree(e)).push(LINE_FEED)
}

/// The value that is the array of the given bytes.
fn bytes_value(bytes: &Vec<u8>) -> (v: serde_json::Value)
    ensures
        value_tree(v) == bytes_tree(bytes@),
{
    let mut items: Vec<serde_json::Value> = Vec::new();
    let mut i: usize = 0;
    while i < bytes.len()
        invariant
            i <= bytes@.len(),
            items@.len() == i,
            forall|k: int|
                0 <= k < i ==> value_tree(#[trigger] items@[k]) == JsonTree::Unsigned(
                    bytes@[k] as u64,
                ),
        decreases bytes@.len() - i,
    {
        items.push(number_value(bytes[i] as u64));
        i += 1;
    }
    assert(value_trees(items@) =~= bytes@.map_values(|b: u8| JsonTree::Unsigned(b as u64)));
    array_value(items)
}

/// The value that is the object of a presence map.
fn statuses_value(users: &UserList) -> (v: serde_json::Value)
    ensures
        value_tree(v) == statuses_tree(users@),
{
    let names = users.names();
    let mut members = new_object();
    let mut i: usize = 0;
    while i < names.len()
        invariant
            i <= names@.len(),
            name_views(names@).to_set() == users@.dom(),
            forall|k: Seq<char>|
                object_fields(members).contains_key(k) <==> exists|j: int|
                    0 <= j < i && #[trigger] name_views(names@)[j] == k,
            forall|k: Seq<char>| #[trigger]
                object_fields(members).contains_key(k) ==> object_fields(members)[k]
                    == JsonTree::Text(users@[k]),
        decreases names@.len() - i,
    {
        let name = &names[i];
        assert(name_views(names@)[i as int] == name@);
        assert(name_views(names@).to_set().contains(name@));
        match users.get(name.as_str()) {
            Some(status) => {
                let ghost before = object_fields(members);
                object_insert(&mut members, name.as_str(), text_value(status.as_str()));
                assert forall|k: Seq<char>|
                    object_fields(members).contains_key(k) <==> exists|j: int|
                        0 <= j < i + 1 && #[trigger] name_views(names@)[j] == k by {
                    if before.contains_key(k) {
                        let j = choose|j: int| 0 <= j < i && #[trigger] name_views(names@)[j] == k;
                        assert(0 <= j < i + 1 && name_views(names@)[j] == k);
                    }
                    if exists|j: int| 0 <= j < i + 1 && #[trigger] name_views(names@)[j] == k {
                        let j = choose|j: int|
                            0 <= j < i + 1 && #[trigger] name_views(names@)[j] == k;
                        if j < i {
                            assert(before.contains_key(k));
                        }
                    }
                }
            },
            None => {},
        }
        i += 1;
    }
    proof {
        let built = object_fields(members);
        let wanted = users@.map_values(|s: Seq<char>| JsonTree::Text(s));
        assert forall|k: Seq<char>| built.contains_key(k) <==> wanted.contains_key(k) by {
            if built.contains_key(k) {
                let j = choose|j: int| 0 <= j < i && #[trigger] name_views(names@)[j] == k;
                assert(name_views(names@).to_set().contains(k));
            }
            if wanted.contains_key(k) {
                assert(name_views(names@).to_set().contains(k));
                let j = choose|j: int| 0 <= j < names@.len() && name_views(names@)[j] == k;
                assert(0 <= j < i && name_views(names@)[j] == k);
            }
        }
        assert(built =~= wanted);
    }
    object_value(members)
}

/// The value that a message is on the wire.
pub fn encode_value(msg: &MessageType) -> (v: serde_json::Value)
    ensures
        value_tree(v) == envelope_tree(msg@),
{
    let mut outer = new_object();
    let mut inner = new_object();
    match msg {
        MessageType::Message(m) => {
            object_insert(&mut inner, "user_name", text_value(m.user_name.as_str()));
            object_insert(&mut inner, "profile_picture", bytes_value(&m.profile_picture));
            object_insert(&mut inner, "message", text_value(m.message.as_str()));
            object_insert(&mut inner, "image", bytes_value(&*m.image));
            object_insert(&mut inner, "timestamp", text_value(m.timestamp.as_str()));
            object_insert(&mut inner, "uuid", text_value(m.uuid.as_str()));
            object_insert(
                &mut inner,
                "uuid_profile_picture",
                text_value(m.uuid_profile_picture.as_str()),
            );
            object_insert(&mut outer, "Message", object_value(inner));
        },
        MessageType::Notification(n) => {
            object_insert(&mut inner, "message", text_value(n.message.as_str()));
            object_insert(&mut outer, "Notification", object_value(inner));
        },
        MessageType::Connect(c) => {
            object_insert(&mut inner, "user_name", text_value(c.user_name.as_str()));
            object_insert(&mut outer, "Connect", object_value(inner));
        },
        MessageType::UserList(u) => {
            object_insert(&mut outer, "UserList", statuses_value(u));
        },
        MessageType::Disconnect(d) => {
            object_insert(&mut inner, "user_name", text_value(d.user_name.as_str()));
            object_insert(&mut inner, "ip", text_value(d.ip.as_str()));
            object_insert(&mut outer, "Disconnect", object_value(inner));
        },
    }
    object_value(outer)
}

/// Writes a message as one line: its compact JSON text, in which no line
/// feed occurs, and one line feed after it.
pub fn encode(msg: &MessageType) -> (line: Vec<u8>)
    ensures
        line@ == encode_spec(msg@),
        line@.len() >= 1,
        line@.last() == LINE_FEED,
        !line@.drop_last().contains(LINE_FEED),
{
    let value = encode_value(msg);
    let mut line = print_value(&value);
    let ghost text = line@;
    line.push(LINE_FEED);
    assert(line@.drop_last() =~= text);
    line
}

/// The text that a tree is, if it is one.
pub open spec fn tree_text(t: JsonTree) -> Option<Seq<char>> {
    match t {
        JsonTree::Text(s) => Some(s),
        _ => None,
    }
}

/// The byte that a tree is, if it is a number from 0 to 255.
pub open spec fn tree_byte(t: JsonTree) -> Option<u8> {
    match t {
        JsonTree::Unsigned(n) => if n <= 255 {
            Some(n as u8)
        } else {
            None
        },
        _ => None,
    }
}

/// The byte string that a tree is, if it is an array of bytes.
pub open spec fn tree_bytes(t: JsonTree) -> Option<Seq<u8>> {
    match t {
        JsonTree::Array(items) => if forall|i: int|
            0 <= i < items.len() ==> tree_byte(#[trigger] items[i]) is Some {
            Some(items.map_values(|item: JsonTree| tree_byte(item).unwrap()))
        } else {
            None
        },
        _ => None,
    }
}

/// The text in the member `key`, if there is such a member and it is a text.
/// Members under other names are of no account.
pub open spec fn field_text(fields: Map<Seq<char>, JsonTree>, key: Seq<char>) -> Option<Seq<char>> {
    if fields.contains_key(key) {
        tree_text(fields[key])
    } else {
        None
    }
}

/// The byte string in the member `key`, if there is such a member and it is
/// an array of bytes.
pub open spec fn field_bytes(fields: Map<Seq<char>, JsonTree>, key: Seq<char>) -> Option<Seq<u8>> {
    if fields.contains_key(key) {
        tree_bytes(fields[key])
    } else {
        None
    }
}

/// The presence map that a tree is, if it is an object of texts.
pub open spec fn tree_statuses(t: JsonTree) -> Option<Map<Seq<char>, Seq<char>>> {
    match t {
        JsonTree::Object(fields) => if forall|k: Seq<char>|
            fields.contains_key(k) ==> tree_text(#[trigger] fields[k]) is Some {
            Some(fields.map_values(|member: JsonTree| tree_text(member).unwrap()))
        } else {
            None
        },
        _ => None,
    }
}

/// The user's message that a tree is, if it is an object with the seven fields.
pub open spec fn tree_message(t: JsonTree) -> Option<MessageView> {
    match t {
        JsonTree::Object(fields) => if field_text(fields, "user_name"@) is Some && field_bytes(
            fields,
            "profile_picture"@,
        ) is Some && field_text(fields, "message"@) is Some && field_bytes(fields, "image"@) is Some
            && field_text(fields, "timestamp"@) is Some && field_text(fields, "uuid"@) is Some
            && field_text(fields, "uuid_profile_picture"@) is Some {
            Some(
                MessageView {
                    user_name: field_text(fields, "user_name"@).unwrap(),
                    profile_picture: field_bytes(fields, "profile_picture"@).unwrap(),
                    message: field_text(fields, "message"@).unwrap(),
                    image: field_bytes(fields, "image"@).unwrap(),
                    timestamp: field_text(fields, "timestamp"@).unwrap(),
                    uuid: field_text(fields, "uuid"@).unwrap(),
                    uuid_profile_picture: field_text(fields, "uuid_profile_picture"@).unwrap(),
                },
            )
        } else {
            None
        },
        _ => None,
    }
}

/// The notice that a tree is, if it is an object with a text `message`.
pub open spec fn tree_notification(t: JsonTree) -> Option<NotificationView> {
    match t {
        JsonTree::Object(fields) => match field_text(fields, "message"@) {
            Some(message) => Some(NotificationView { message }),
            None => None,
        },
        _ => None,
    }
}

/// The join that a tree is, if it is an object with a text `user_name`.
pub open spec fn tree_connect(t: JsonTree) -> Option<ConnectView> {
    match t {
        JsonTree::Object(fields) => match field_text(fields, "user_name"@) {
            Some(user_name) => Some(ConnectView { user_name }),
            None => None,
        },
        _ => None,
    }
}

/// The leave that a tree is, if it is an object with the texts `user_name` and `ip`.
pub open spec fn tree_disconnect(t: JsonTree) -> Option<DisconnectView> {
    match t {
        JsonTree::Object(fields) => if field_text(fields, "user_name"@) is Some && field_text(
            fields,
            "ip"@,
        ) is Some {
            Some(
                DisconnectView {
                    user_name: field_text(fields, "user_name"@).unwrap(),
                    ip: field_text(fields, "ip"@).unwrap(),
                },
            )
        } else {
            None
        },
        _ => None,
    }
}

/// Whether the map has exactly one member.
pub open spec fn single_member(fields: Map<Seq<char>, JsonTree>) -> bool {
    exists|k: Seq<char>| fields.dom() == set![k]
}

/// What is found under a tag: the message of that kind, or the reason why not.
pub open spec fn tagged_envelope(tag: Seq<char>, content: JsonTree) -> Result<
    MessageTypeView,
    DecodeError,
> {
    if tag == "Message"@ {
        match tree_message(content) {
            Some(m) => Ok(MessageTypeView::Message(m)),
            None => Err(DecodeError::Structure),
        }
    } else if tag == "Notification"@ {
        match tree_notification(content) {
            Some(n) => Ok(MessageTypeView::Notification(n)),
            None => Err(DecodeError::Structure),
        }
    } else if tag == "Connect"@ {
        match tree_connect(content) {
            Some(c) => Ok(MessageTypeView::Connect(c)),
            None => Err(DecodeError::Structure),
        }
    } else if tag == "UserList"@ {
        match tree_statuses(content) {
            Some(u) => Ok(MessageTypeView::UserList(u)),
            None => Err(DecodeError::Structure),
        }
    } else if tag == "Disconnect"@ {
        match tree_disconnect(content) {
            Some(d) => Ok(MessageTypeView::Disconnect(d)),
            None => Err(DecodeError::Structure),
        }
    } else {
        Err(DecodeError::UnknownVariant)
    }
}

/// The message that a tree is, or the reason why it is none.
pub open spec fn tree_envelope(t: JsonTree) -> Result<MessageTypeView, DecodeError> {
    match t {
        JsonTree::Object(fields) => if single_member(fields) {
            tagged_envelope(fields.dom().choose(), fields[fields.dom().choose()])
        } else {
            Err(DecodeError::Structure)
        },
        _ => Err(DecodeError::Structure),
    }
}

/// The message that a line carries, or the reason why it carries none.
/// White space around the JSON text, the line feed at the end among it,
/// is the parser's to skip.
pub open spec fn decode_spec(line: Seq<u8>) -> Result<MessageTypeView, DecodeError> {
    match json_parse(line) {
        Some(t) => tree_envelope(t),
        None => Err(DecodeError::Syntax),
    }
}

/// Whether two texts are the same.
fn same_text(a: &str, b: &str) -> (r: bool)
    ensures
        r == (a@ == b@),
{
    a.to_owned() == b.to_owned()
}

/// Reads the text member `key` of an object.
pub(crate) fn read_text(members: &serde_json::Map<String, serde_json::Value>, key: &str) -> (r: Option<String>)
    ensures
        match r {
            Some(s) => field_text(object_fields(*members), key@) == Some(s@),
            None => field_text(object_fields(*members), key@) is None,
        },
{
    match object_get(members, key) {
        Some(v) => match as_text(v) {
            Some(s) => Some(s.to_owned()),
            None => None,
        },
        None => None,
    }
}

/// Reads a value as a byte string.
fn read_byte_array(v: &serde_json::Value) -> (r: Option<Vec<u8>>)
    ensures
        match r {
            Some(bytes) => tree_bytes(value_tree(*v)) == Some(bytes@),
            None => tree_bytes(value_tree(*v)) is None,
        },
{
    let items = match as_array(v) {
        Some(items) => items,
        None => {
            return None;
        },
    };
    let ghost trees = value_trees(items@);
    let mut bytes: Vec<u8> = Vec::new();
    let mut i: usize = 0;
    while i < items.len()
        invariant
            i <= items@.len(),
            trees == value_trees(items@),
            value_tree(*v) == JsonTree::Array(trees),
            bytes@.len() == i,
            forall|k: int| 0 <= k < i ==> tree_byte(#[trigger] trees[k]) == Some(bytes@[k]),
        decreases items@.len() - i,
    {
        assert(trees[i as int] == value_tree(items@[i as int]));
        match as_unsigned(&items[i]) {
            Some(n) => {
                if n > 255 {
                    return None;
                }
                bytes.push(n as u8);
            },
            None => {
                return None;
            },
        }
        i += 1;
    }
    assert(bytes@ =~= trees.map_values(|item: JsonTree| tree_byte(item).unwrap()));
    Some(bytes)
}

/// Reads the byte string member `key` of an object.
fn read_bytes(members: &serde_json::Map<String, serde_json::Value>, key: &str) -> (r: Option<
    Vec<u8>,
>)
    ensures
        match r {
            Some(bytes) => field_bytes(object_fields(*members), key@) == Some(bytes@),
            None => field_bytes(object_fields(*members), key@) is None,
        },
{
    match object_get(members, key) {
        Some(v) => read_byte_array(v),
        None => None,
    }
}

/// Reads a value as a presence map.
fn read_statuses(v: &serde_json::Value) -> (r: Option<UserList>)
    ensures
        match r {
            Some(users) => tree_statuses(value_tree(*v)) == Some(users@),
            None => tree_statuses(value_tree(*v)) is None,
        },
{
    let members = match as_object(v) {
        Some(members) => members,
        None => {
            return None;
        },
    };
    let ghost fields = object_fields(*members);
    let keys = object_keys(members);
    let mut users = UserList::new();
    let mut i: usize = 0;
    while i < keys.len()
        invariant
            i <= keys@.len(),
            fields == object_fields(*members),
            value_tree(*v) == JsonTree::Object(fields),
            key_views(keys@).to_set() == fields.dom(),
            forall|k: Seq<char>|
                users@.contains_key(k) <==> exists|j: int|
                    0 <= j < i && #[trigger] key_views(keys@)[j] == k,
            forall|k: Seq<char>| #[trigger]
                users@.contains_key(k) ==> fields.contains_key(k) && tree_text(fields[k]) == Some(
                    users@[k],
                ),
        decreases keys@.len() - i,
    {
        let key = &keys[i];
        assert(key_views(keys@)[i as int] == key@);
        assert(key_views(keys@).to_set().contains(key@));
        let status = match read_text(members, key.as_str()) {
            Some(status) => status,
            None => {
                return None;
            },
        };
        let ghost before = users@;
        users.insert(key.clone(), status);
        assert forall|k: Seq<char>|
            users@.contains_key(k) <==> exists|j: int|
                0 <= j < i + 1 && #[trigger] key_views(keys@)[j] == k by {
            if before.contains_key(k) {
                let j = choose|j: int| 0 <= j < i && #[trigger] key_views(keys@)[j] == k;
                assert(0 <= j < i + 1 && key_views(keys@)[j] == k);
            }
            if exists|j: int| 0 <= j < i + 1 && #[trigger] key_views(keys@)[j] == k {
                let j = choose|j: int| 0 <= j < i + 1 && #[trigger] key_views(keys@)[j] == k;
                if j < i {
                    assert(before.contains_key(k));
                }
            }
        }
        i += 1;
    }
    proof {
        assert forall|k: Seq<char>| fields.contains_key(k) implies users@.contains_key(k) by {
            assert(key_views(keys@).to_set().contains(k));
            let j = choose|j: int| 0 <= j < keys@.len() && key_views(keys@)[j] == k;
            assert(0 <= j < i && key_views(keys@)[j] == k);
        }
        assert(users@ =~= fields.map_values(|member: JsonTree| tree_text(member).unwrap()));
    }
    Some(users)
}

/// Reads a value as the fields of a user's message.
fn read_message(v: &serde_json::Value) -> (r: Option<Message>)
    ensures
        match r {
            Some(m) => tree_message(value_tree(*v)) == Some(m@),
            None => tree_message(value_tree(*v)) is None,
        },
{
    let members = match as_object(v) {
        Some(members) => members,
        None => {
            return None;
        },
    };
    let user_name = match read_text(members, "user_name") {
        Some(x) => x,
        None => {
            return None;
        },
    };
    let profile_picture = match read_bytes(members, "profile_picture") {
        Some(x) => x,
        None => {
            return None;
        },
    };
    let message = match read_text(members, "message") {
        Some(x) => x,
        None => {
            return None;
        },
    };
    let image = match read_bytes(members, "image") {
        Some(x) => x,
        None => {
            return None;
        },
    };
    let timestamp = match read_text(members, "timestamp") {
        Some(x) => x,
        None => {
            return None;
        },
    };
    let uuid = match read_text(members, "uuid") {
        Some(x) => x,
        None => {
            return None;
        },
    };
    let uuid_profile_picture = match read_text(members, "uuid_profile_picture") {
        Some(x) => x,
        None => {
            return None;
        },
    };
    Some(
        Message {
            user_name,
            profile_picture,
            message,
            image: Arc::new(image),
            timestamp,
            uuid,
            uuid_profile_picture,
        },
    )
}

/// Reads a value as the fields of a notice.
fn read_notification(v: &serde_json::Value) -> (r: Option<Notification>)
    ensures
        match r {
            Some(n) => tree_notification(value_tree(*v)) == Some(n@),
            None => tree_notification(value_tree(*v)) is None,
        },
{
    match as_object(v) {
        Some(members) => match read_text(members, "message") {
            Some(message) => Some(Notification { message }),
            None => None,
        },
        None => None,
    }
}

/// Reads a value as the fields of a join.
fn read_connect(v: &serde_json::Value) -> (r: Option<Connect>)
    ensures
        match r {
            Some(c) => tree_connect(value_tree(*v)) == Some(c@),
            None => tree_connect(value_tree(*v)) is None,
        },
{
    match as_object(v) {
        Some(members) => match read_text(members, "user_name") {
            Some(user_name) => Some(Connect { user_name }),
            None => None,
        },
        None => None,
    }
}

/// Reads a value as the fields of a leave.
fn read_disconnect(v: &serde_json::Value) -> (r: Option<Disconnect>)
    ensures
        match r {
            Some(d) => tree_disconnect(value_tree(*v)) == Some(d@),
            None => tree_disconnect(value_tree(*v)) is None,
        },
{
    let members = match as_object(v) {
        Some(members) => members,
        None => {
            return None;
        },
    };
    let user_name = match read_text(members, "user_name") {
        Some(x) => x,
        None => {
            return None;
        },
    };
    let ip = match read_text(members, "ip") {
        Some(x) => x,
        None => {
            return None;
        },
    };
    Some(Disconnect { user_name, ip })
}

/// Reads what stands under a tag.
fn read_tagged(tag: &str, content: &serde_json::Value) -> (r: Result<MessageType, DecodeError>)
    ensures
        match r {
            Ok(msg) => tagged_envelope(tag@, value_tree(*content)) == Ok::<
                MessageTypeView,
                DecodeError,
            >(msg@),
            Err(e) => tagged_envelope(tag@, value_tree(*content)) == Err::<
                MessageTypeView,
                DecodeError,
            >(e),
        },
{
    if same_text(tag, "Message") {
        match read_message(content) {
            Some(m) => Ok(MessageType::Message(m)),
            None => Err(DecodeError::Structure),
        }
    } else if same_text(tag, "Notification") {
        match read_notification(content) {
            Some(n) => Ok(MessageType::Notification(n)),
            None => Err(DecodeError::Structure),
        }
    } else if same_text(tag, "Connect") {
        match read_connect(content) {
            Some(c) => Ok(MessageType::Connect(c)),
            None => Err(DecodeError::Structure),
        }
    } else if same_text(tag, "UserList") {
        match read_statuses(content) {
            Some(u) => Ok(MessageType::UserList(u)),
            None => Err(DecodeError::Structure),
        }
    } else if same_text(tag, "Disconnect") {
        match read_disconnect(content) {
            Some(d) => Ok(MessageType::Disconnect(d)),
            None => Err(DecodeError::Structure),
        }
    } else {
        Err(DecodeError::UnknownVariant)
    }
}

/// Reads a JSON value as a message: an object with exactly one member,
/// named after a kind of message and holding the fields of that kind.
pub fn decode_value(v: &serde_json::Value) -> (r: Result<MessageType, DecodeError>)
    ensures
        match r {
            Ok(msg) => tree_envelope(value_tree(*v)) == Ok::<MessageTypeView, DecodeError>(msg@),
            Err(e) => tree_envelope(value_tree(*v)) == Err::<MessageTypeView, DecodeError>(e),
        },
{
    let members = match as_object(v) {
        Some(members) => members,
        None => {
            return Err(DecodeError::Structure);
        },
    };
    let ghost fields = object_fields(*members);
    let keys = object_keys(members);
    if keys.len() != 1 {
        proof {
            if single_member(fields) {
                let k = choose|k: Seq<char>| fields.dom() == set![k];
                key_views(keys@).unique_seq_to_set();
                assert(set![k].len() == 1);
            }
        }
        return Err(DecodeError::Structure);
    }
    let tag = &keys[0];
    proof {
        let views = key_views(keys@);
        assert(views[0] == tag@);
        assert forall|k: Seq<char>| views.to_set().contains(k) <==> set![tag@].contains(k) by {
            if views.to_set().contains(k) {
                let j = choose|j: int| 0 <= j < views.len() && views[j] == k;
                assert(j == 0);
            }
            if k == tag@ {
                assert(views[0] == k);
            }
        }
        assert(fields.dom() =~= set![tag@]);
        assert(single_member(fields));
        assert(fields.dom().contains(tag@));
        assert(fields.dom().contains(fields.dom().choose()));
        assert(fields.dom().choose() == tag@);
    }
    match object_get(members, tag.as_str()) {
        Some(content) => read_tagged(tag.as_str(), content),
        None => Err(DecodeError::Structure),
    }
}

/// Reads one line as a message. White space around the JSON text, such as
/// the line feed that ends the line, does not matter.
pub fn decode(line: &[u8]) -> (r: Result<MessageType, DecodeError>)
    ensures
        match r {
            Ok(msg) => decode_spec(line@) == Ok::<MessageTypeView, DecodeError>(msg@),
            Err(e) => decode_spec(line@) == Err::<MessageTypeView, DecodeError>(e),
        },
{
    match parse_value(line) {
        Ok(v) => decode_value(&v),
        Err(_) => Err(DecodeError::Syntax),
    }
}

/// The names of the kinds of message differ from one another.
pub proof fn lemma_tags_differ()
    ensures
        "Message"@ != "Notification"@,
        "Message"@ != "Connect"@,
        "Message"@ != "UserList"@,
        "Message"@ != "Disconnect"@,
        "Notification"@ != "Connect"@,
        "Notification"@ != "UserList"@,
        "Notification"@ != "Disconnect"@,
        "Connect"@ != "UserList"@,
        "Connect"@ != "Disconnect"@,
        "UserList"@ != "Disconnect"@,
{
    reveal_strlit("Message");
    reveal_strlit("Notification");
    reveal_strlit("Connect");
    reveal_strlit("UserList");
    reveal_strlit("Disconnect");
    assert("Message"@.len() == 7);
    assert("Notification"@.len() == 12);
    assert("Connect"@[0] == 'C');
    assert("UserList"@[0] == 'U');
    assert("Disconnect"@[0] == 'D');
    assert("Message"@[0] == 'M');
}

/// The names of the fields of a user's message differ from one another.
pub proof fn lemma_fields_differ()
    ensures
        "user_name"@.len() == 9,
        "profile_picture"@.len() == 15,
        "message"@.len() == 7,
        "image"@.len() == 5,
        "timestamp"@.len() == 9,
        "uuid"@.len() == 4,
        "uuid_profile_picture"@.len() == 20,
        "ip"@.len() == 2,
        "user_name"@ != "timestamp"@,
{
    reveal_strlit("user_name");
    reveal_strlit("profile_picture");
    reveal_strlit("message");
    reveal_strlit("image");
    reveal_strlit("timestamp");
    reveal_strlit("uuid");
    reveal_strlit("uuid_profile_picture");
    reveal_strlit("ip");
    assert("user_name"@[0] == 'u');
    assert("timestamp"@[0] == 't');
}

/// A byte string is read back from its array.
pub proof fn lemma_bytes_round_trip(bytes: Seq<u8>)
    ensures
        tree_bytes(bytes_tree(bytes)) == Some(bytes),
{
    let items = bytes.map_values(|b: u8| JsonTree::Unsigned(b as u64));
    assert forall|i: int| 0 <= i < items.len() implies tree_byte(#[trigger] items[i]) == Some(
        bytes[i],
    ) by {}
    assert(items.map_values(|item: JsonTree| tree_byte(item).unwrap()) =~= bytes);
}

/// A presence map is read back from its object.
pub proof fn lemma_statuses_round_trip(statuses: Map<Seq<char>, Seq<char>>)
    ensures
        tree_statuses(statuses_tree(statuses)) == Some(statuses),
{
    let fields = statuses.map_values(|s: Seq<char>| JsonTree::Text(s));
    assert forall|k: Seq<char>| fields.contains_key(k) implies tree_text(#[trigger] fields[k])
        == Some(statuses[k]) by {}
    assert(fields.map_values(|member: JsonTree| tree_text(member).unwrap()) =~= statuses);
}

/// The tree that a message is written as is read back as that
/// very message, whatever its kind and whatever its fields hold.
pub proof fn lemma_round_trip(e: MessageTypeView)
    ensures
        tree_envelope(envelope_tree(e)) == Ok::<MessageTypeView, DecodeError>(e),
{
    lemma_tags_differ();
    lemma_fields_differ();
    let t = envelope_tree(e);
    let fields = t->Object_0;
    match e {
        MessageTypeView::Message(m) => {
            assert(fields.dom() =~= set!["Message"@]);
            assert(fields.dom().contains("Message"@));
            lemma_bytes_round_trip(m.profile_picture);
            lemma_bytes_round_trip(m.image);
            assert(tree_message(message_tree(m)) == Some(m));
        },
        MessageTypeView::Notification(n) => {
            assert(fields.dom() =~= set!["Notification"@]);
            assert(fields.dom().contains("Notification"@));
            assert(tree_notification(notification_tree(n)) == Some(n));
        },
        MessageTypeView::Connect(c) => {
            assert(fields.dom() =~= set!["Connect"@]);
            assert(fields.dom().contains("Connect"@));
            assert(tree_connect(connect_tree(c)) == Some(c));
        },
        MessageTypeView::UserList(u) => {
            assert(fields.dom() =~= set!["UserList"@]);
            assert(fields.dom().contains("UserList"@));
            lemma_statuses_round_trip(u);
        },
        MessageTypeView::Disconnect(d) => {
            assert(fields.dom() =~= set!["Disconnect"@]);
            assert(fields.dom().contains("Disconnect"@));
            assert(tree_disconnect(disconnect_tree(d)) == Some(d));
        },
    }
}

} // verus!
