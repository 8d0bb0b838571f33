//! The presence table of a relay: who is in the room.

use vstd::prelude::*;
use crate::message::{ConnectView, DisconnectView, MessageType, MessageTypeView};
use crate::roster::UserList;

verus! {

/// The status that a user has from joining until leaving.
pub open spec fn online() -> Seq<char> {
    "online"@
}

/// Whether a message changes the presence table: a join or a leave.
pub open spec fn is_control(msg: MessageTypeView) -> bool {
    msg is Connect || msg is Disconnect
}

/// The presence table after a message: a join sets the user's name to
/// `online`, whether it was present or not; a leave takes the name out, if it
/// is present; any other message changes nothing.
pub open spec fn presence_after(
    table: Map<Seq<char>, Seq<char>>,
    msg: MessageTypeView,
) -> Map<Seq<char>, Seq<char>> {
    match msg {
        MessageTypeView::Connect(c) => table.insert(c.user_name, online()),
        MessageTypeView::Disconnect(d) => table.remove(d.user_name),
        _ => table,
    }
}

/// A join makes the name present and leaves every other name as it was.
pub proof fn lemma_join(table: Map<Seq<char>, Seq<char>>, name: Seq<char>)
    ensures
        presence_after(table, MessageTypeView::Connect(ConnectView { user_name: name })).contains_key(
            name,
        ),
        forall|other: Seq<char>|
            other != name ==> (#[trigger] presence_after(
                table,
                MessageTypeView::Connect(ConnectView { user_name: name }),
            ).contains_key(other) <==> table.contains_key(other)),
{
}

/// A leave makes the name absent and leaves every other name as it was.
pub proof fn lemma_leave(table: Map<Seq<char>, Seq<char>>, name: Seq<char>, ip: Seq<char>)
    ensures
        !presence_after(
            table,
            MessageTypeView::Disconnect(DisconnectView { user_name: name, ip }),
        ).contains_key(name),
        forall|other: Seq<char>|
            other != name ==> (#[trigger] presence_after(
                table,
                MessageTypeView::Disconnect(DisconnectView { user_name: name, ip }),
            ).contains_key(other) <==> table.contains_key(other)),
{
}

/// Joining twice is joining once.
pub proof fn lemma_join_idempotent(table: Map<Seq<char>, Seq<char>>, name: Seq<char>)
    ensures
        presence_after(
            presence_after(table, MessageTypeView::Connect(ConnectView { user_name: name })),
            MessageTypeView::Connect(ConnectView { user_name: name }),
        ) == presence_after(table, MessageTypeView::Connect(ConnectView { user_name: name })),
{
    let once = table.insert(name, online());
    assert(once.insert(name, online()) =~= once);
}

/// After a first user and then a second have joined,
/// the table holds both names; after the first has left, the table holds
/// the second name and not the first. The two names differ.
pub proof fn lemma_presence_convergence(
    table: Map<Seq<char>, Seq<char>>,
    first: Seq<char>,
    second: Seq<char>,
    ip: Seq<char>,
)
    requires
        first != second,
    ensures
        ({
            let joined = presence_after(
                presence_after(table, MessageTypeView::Connect(ConnectView { user_name: first })),
                MessageTypeView::Connect(ConnectView { user_name: second }),
            );
            let left = presence_after(
                joined,
                MessageTypeView::Disconnect(DisconnectView { user_name: first, ip }),
            );
            &&& joined.contains_key(first)
            &&& joined.contains_key(second)
            &&& !left.contains_key(first)
            &&& left.contains_key(second)
        }),
{
}

/// The presence table: user name to status.
#[derive(Debug)]
pub struct PresenceTable {
    users: UserList,
}

impl View for PresenceTable {
    type V = Map<Seq<char>, Seq<char>>;

    closed spec fn view(&self) -> Map<Seq<char>, Seq<char>> {
        self.users@
    }
}

impl PresenceTable {
    /// A table without names.
    pub fn new() -> (r: Self)
        ensures
            r@ == Map::<Seq<char>, Seq<char>>::empty(),
    {
        PresenceTable { users: UserList::new() }
    }

    /// A copy of the whole table.
    pub fn snapshot(&self) -> (r: UserList)
        ensures
            r@ == self@,
    {
        self.users.clone()
    }

    /// Whether the name is present.
    pub fn contains(&self, name: &str) -> (r: bool)
        ensures
            r == self@.contains_key(name@),
    {
        self.users.contains_key(name)
    }

    /// Applies a message to the table. A join or a leave changes the table
    /// as `presence_after` says and yields the whole new table, to be sent to
    /// every session; any other message changes nothing and yields nothing.
    pub fn apply_control(&mut self, msg: &MessageType) -> (r: Option<MessageType>)
        ensures
            final(self)@ == presence_after(old(self)@, msg@),
            match r {
                Some(snapshot) => is_control(msg@) && snapshot@ == MessageTypeView::UserList(
                    final(self)@,
                ),
                None => !is_control(msg@),
            },
    {
        match msg {
            MessageType::Connect(c) => {
                self.users.insert(c.user_name.clone(), "online".to_owned());
                Some(MessageType::UserList(self.users.clone()))
            },
            MessageType::Disconnect(d) => {
                self.users.remove(d.user_name.as_str());
                Some(MessageType::UserList(self.users.clone()))
            },
            _ => None,
        }
    }
}

/// What a participant holds of the room's presence after a message has
/// come in: a presence table that arrives replaces the whole of what was
/// held, and nothing of the old view is merged into it; any other message
/// leaves the view as it is.
pub open spec fn view_after(
    held: Map<Seq<char>, Seq<char>>,
    msg: MessageTypeView,
) -> Map<Seq<char>, Seq<char>> {
    match msg {
        MessageTypeView::UserList(table) => table,
        _ => held,
    }
}

/// Takes a message in on the participant's side: a presence table that
/// arrives replaces the view that was held. Says whether it did.
pub fn adopt_snapshot(held: &mut UserList, msg: &MessageType) -> (replaced: bool)
    ensures
        final(held)@ == view_after(old(held)@, msg@),
        replaced == (msg@ is UserList),
{
    match msg {
        MessageType::UserList(table) => {
            *held = table.clone();
            true
        },
        _ => false,
    }
}

} // verus!
