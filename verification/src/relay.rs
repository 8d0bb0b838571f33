//! The relay: the registry of sessions, and what the relay does with each
//! line that a session sends. The relay's sockets are not here; these are
//! its decisions, from state and event to next state and deliveries.

use vstd::prelude::*;
use crate::codec::{decode, decode_spec, encode, encode_spec};
use crate::message::{MessageType, MessageTypeView};
use crate::presence::{is_control, presence_after, PresenceTable};

verus! {

/// The host part of a peer's address.
#[derive(Debug, Clone, Copy, PartialEq, Eq, Hash, Structural)]
pub enum PeerIp {
    V4(u32),
    V6(u128),
}

/// The network address of a peer: what a session is known by.
#[derive(Debug, Clone, Copy, PartialEq, Eq, Hash, Structural)]
pub struct PeerAddr {
    pub ip: PeerIp,
    pub port: u16,
}

/// The addresses of a sequence of sessions, in order.
pub open spec fn addresses<H>(sessions: Seq<(PeerAddr, H)>) -> Seq<PeerAddr> {
    sessions.map_values(|s: (PeerAddr, H)| s.0)
}

/// `peers` without `gone`, in the same order.
pub open spec fn without(peers: Seq<PeerAddr>, gone: PeerAddr) -> Seq<PeerAddr>
    decreases peers.len(),
{
    if peers.len() == 0 {
        Seq::empty()
    } else if peers.last() == gone {
        without(peers.drop_last(), gone)
    } else {
        without(peers.drop_last(), gone).push(peers.last())
    }
}

/// What `without` keeps: every peer but the one that is gone.
pub proof fn lemma_without(peers: Seq<PeerAddr>, gone: PeerAddr)
    ensures
        forall|p: PeerAddr| #[trigger]
            without(peers, gone).contains(p) <==> (peers.contains(p) && p != gone),
        without(peers, gone).len() <= peers.len(),
        peers.no_duplicates() ==> without(peers, gone).no_duplicates(),
        peers.no_duplicates() && peers.contains(gone) ==> without(peers, gone).len() == peers.len()
            - 1,
        !peers.contains(gone) ==> without(peers, gone) == peers,
    decreases peers.len(),
{
    if peers.len() == 0 {
    } else {
        let front = peers.drop_last();
        let last = peers.last();
        lemma_without(front, gone);
        let kept = without(front, gone);
        assert forall|p: PeerAddr| #[trigger]
            without(peers, gone).contains(p) <==> (peers.contains(p) && p != gone) by {
            if peers.contains(p) {
                let i = choose|i: int| 0 <= i < peers.len() && peers[i] == p;
                if i < front.len() {
                    assert(front[i] == p);
                    assert(front.contains(p));
                }
            }
            if front.contains(p) {
                let i = choose|i: int| 0 <= i < front.len() && front[i] == p;
                assert(peers[i] == p);
            }
            if last != gone {
                let w = kept.push(last);
                if w.contains(p) {
                    let i = choose|i: int| 0 <= i < w.len() && w[i] == p;
                    if i < kept.len() {
                        assert(kept[i] == p);
                        assert(kept.contains(p));
                    }
                }
                if kept.contains(p) {
                    let i = choose|i: int| 0 <= i < kept.len() && kept[i] == p;
                    assert(w[i] == p);
                }
                if p == last {
                    assert(w[kept.len() as int] == p);
                    assert(peers[peers.len() - 1] == p);
                }
            }
        }
        if peers.no_duplicates() {
            assert forall|i: int, j: int| 0 <= i < front.len() && 0 <= j < front.len() && i
                != j implies front[i] != front[j] by {
                assert(peers[i] != peers[j]);
            }
            assert(!front.contains(last)) by {
                if front.contains(last) {
                    let i = choose|i: int| 0 <= i < front.len() && front[i] == last;
                    assert(peers[i] == peers[peers.len() - 1]);
                }
            }
            if last != gone {
                assert(!kept.contains(last));
                let w = kept.push(last);
                assert forall|i: int, j: int| 0 <= i < w.len() && 0 <= j < w.len() && i
                    != j implies w[i] != w[j] by {
                    if i < kept.len() && j < kept.len() {
                    } else if i < kept.len() {
                        assert(kept.contains(kept[i]));
                    } else if j < kept.len() {
                        assert(kept.contains(kept[j]));
                    }
                }
                if peers.contains(gone) {
                    let i = choose|i: int| 0 <= i < peers.len() && peers[i] == gone;
                    assert(front[i] == gone);
                    assert(front.contains(gone));
                }
            } else {
                assert(!front.contains(gone));
                assert(peers.contains(gone)) by {
                    assert(peers[peers.len() - 1] == gone);
                }
            }
        }
        if !peers.contains(gone) {
            assert(last != gone) by {
                assert(peers[peers.len() - 1] == last);
            }
            assert(!front.contains(gone));
            assert(kept.push(last) =~= peers);
        }
    }
}

/// One line to write to one session.
#[derive(Debug)]
pub struct Delivery {
    pub to: PeerAddr,
    pub line: Vec<u8>,
}

impl View for Delivery {
    type V = (PeerAddr, Seq<u8>);

    open spec fn view(&self) -> (PeerAddr, Seq<u8>) {
        (self.to, self.line@)
    }
}

/// The deliveries of a vector of deliveries, as mathematical values.
pub open spec fn delivery_views(deliveries: Seq<Delivery>) -> Seq<(PeerAddr, Seq<u8>)> {
    deliveries.map_values(|d: Delivery| d@)
}

/// The same line to each of the peers, in their order.
pub open spec fn to_each(peers: Seq<PeerAddr>, line: Seq<u8>) -> Seq<(PeerAddr, Seq<u8>)> {
    peers.map_values(|p: PeerAddr| (p, line))
}

/// What the relay sends when the message `msg` has arrived from `from` as
/// the line `line`: after a join or a leave the new presence table, to every
/// session, the sender among them; then the line itself, byte for byte, to
/// every session but the sender.
pub open spec fn message_deliveries(
    peers: Seq<PeerAddr>,
    presence: Map<Seq<char>, Seq<char>>,
    from: PeerAddr,
    msg: MessageTypeView,
    line: Seq<u8>,
) -> Seq<(PeerAddr, Seq<u8>)> {
    let snapshot = if is_control(msg) {
        to_each(peers, encode_spec(MessageTypeView::UserList(presence_after(presence, msg))))
    } else {
        Seq::empty()
    };
    snapshot + to_each(without(peers, from), line)
}

/// What the relay sends when the line `line` has arrived from `from`:
/// nothing, if the line does not decode.
pub open spec fn line_deliveries(
    peers: Seq<PeerAddr>,
    presence: Map<Seq<char>, Seq<char>>,
    from: PeerAddr,
    line: Seq<u8>,
) -> Seq<(PeerAddr, Seq<u8>)> {
    match decode_spec(line) {
        Ok(msg) => message_deliveries(peers, presence, from, msg, line),
        Err(_) => Seq::empty(),
    }
}

/// The presence table after the line `line` has arrived: unchanged, if the
/// line does not decode.
pub open spec fn presence_after_line(
    presence: Map<Seq<char>, Seq<char>>,
    line: Seq<u8>,
) -> Map<Seq<char>, Seq<char>> {
    match decode_spec(line) {
        Ok(msg) => presence_after(presence, msg),
        Err(_) => presence,
    }
}

/// The sessions of a relay: peer address to write handle, each address at
/// most once, in the order in which they were registered.
#[derive(Debug)]
pub struct Registry<H> {
    sessions: Vec<(PeerAddr, H)>,
}

/// Whether a session is registered under this address.
pub open spec fn holds<H>(sessions: Seq<(PeerAddr, H)>, addr: PeerAddr) -> bool {
    exists|i: int| 0 <= i < sessions.len() && (#[trigger] sessions[i]).0 == addr
}

/// The place of the session that is registered under this address.
pub open spec fn slot<H>(sessions: Seq<(PeerAddr, H)>, addr: PeerAddr) -> int {
    choose|i: int| 0 <= i < sessions.len() && (#[trigger] sessions[i]).0 == addr
}

impl<H> View for Registry<H> {
    type V = Seq<(PeerAddr, H)>;

    /// The sessions, in the order of their registration.
    closed spec fn view(&self) -> Seq<(PeerAddr, H)> {
        self.sessions@
    }
}

impl<H> Registry<H> {
    #[verifier::type_invariant]
    spec fn well_formed(&self) -> bool {
        addresses(self.sessions@).no_duplicates()
    }

    /// The addresses of the sessions, in the order of their registration.
    pub open spec fn peers(&self) -> Seq<PeerAddr> {
        addresses(self@)
    }

    /// A registry without sessions.
    pub fn new() -> (r: Self)
        ensures
            r@ == Seq::<(PeerAddr, H)>::empty(),
    {
        Registry { sessions: Vec::new() }
    }

    /// The number of sessions.
    pub fn len(&self) -> (n: usize)
        ensures
            n == self@.len(),
            self.peers().no_duplicates(),
    {
        proof {
            use_type_invariant(self);
        }
        self.sessions.len()
    }

    fn find(&self, addr: PeerAddr) -> (r: Option<usize>)
        ensures
            addresses(self@).no_duplicates(),
            match r {
                Some(i) => i < self@.len() && self@[i as int].0 == addr && slot(self@, addr) == i,
                None => !holds(self@, addr),
            },
    {
        proof {
            use_type_invariant(self);
        }
        let mut i: usize = 0;
        while i < self.sessions.len()
            invariant
                i <= self.sessions@.len(),
                addresses(self.sessions@).no_duplicates(),
                forall|k: int| 0 <= k < i ==> (#[trigger] self.sessions@[k]).0 != addr,
            decreases self.sessions@.len() - i,
        {
            if self.sessions[i].0 == addr {
                proof {
                    let j = slot(self@, addr);
                    assert(addresses(self@)[j] == addr);
                    assert(addresses(self@)[i as int] == addr);
                }
                return Some(i);
            }
            i += 1;
        }
        None
    }

    /// Whether a session is registered under this address.
    pub fn contains(&self, addr: PeerAddr) -> (r: bool)
        ensures
            r == holds(self@, addr),
            r == self.peers().contains(addr),
    {
        let r = self.find(addr);
        proof {
            if self.peers().contains(addr) {
                let i = choose|i: int| 0 <= i < self.peers().len() && self.peers()[i] == addr;
                assert(self@[i].0 == addr);
            }
            if r is Some {
                assert(self.peers()[r.unwrap() as int] == addr);
            }
        }
        r.is_some()
    }

    /// The write handle that is registered under this address, if there is one.
    pub fn handle(&self, addr: PeerAddr) -> (r: Option<&H>)
        ensures
            match r {
                Some(h) => holds(self@, addr) && *h == self@[slot(self@, addr)].1,
                None => !holds(self@, addr),
            },
    {
        match self.find(addr) {
            Some(i) => Some(&self.sessions[i].1),
            None => None,
        }
    }

    /// Registers a session. An address that is registered already keeps its
    /// place and gets the new handle, and the handle that it had comes back;
    /// a new address goes to the end.
    pub fn register(&mut self, addr: PeerAddr, handle: H) -> (r: Option<H>)
        ensures
            final(self).peers().no_duplicates(),
            final(self).peers().contains(addr),
            match r {
                Some(before) => holds(old(self)@, addr) && before == old(self)@[slot(
                    old(self)@,
                    addr,
                )].1 && final(self)@ == old(self)@.update(slot(old(self)@, addr), (addr, handle)),
                None => !holds(old(self)@, addr) && final(self)@ == old(self)@.push((addr, handle)),
            },
    {
        let found = self.find(addr);
        let mut sessions: Vec<(PeerAddr, H)> = Vec::new();
        std::mem::swap(&mut self.sessions, &mut sessions);
        let ghost before = sessions@;
        let r = match found {
            Some(i) => {
                sessions.push((addr, handle));
                let previous = sessions.swap_remove(i);
                proof {
                    assert(sessions@ =~= before.update(i as int, (addr, handle)));
                    assert(addresses(sessions@) =~= addresses(before));
                    assert(addresses(sessions@)[i as int] == addr);
                }
                Some(previous.1)
            },
            None => {
                sessions.push((addr, handle));
                proof {
                    let after = addresses(sessions@);
                    assert(after =~= addresses(before).push(addr));
                    assert forall|i: int, j: int| 0 <= i < after.len() && 0 <= j < after.len() && i
                        != j implies after[i] != after[j] by {
                        if i < before.len() && j < before.len() {
                            assert(addresses(before)[i] != addresses(before)[j]);
                        } else if i < before.len() {
                            assert(before[i].0 != addr);
                        } else {
                            assert(before[j].0 != addr);
                        }
                    }
                    assert(after[before.len() as int] == addr);
                }
                None
            },
        };
        self.sessions = sessions;
        r
    }

    /// Takes the session of this address out, if there is one, and hands
    /// back its handle. The other sessions keep their order.
    pub fn unregister(&mut self, addr: PeerAddr) -> (r: Option<H>)
        ensures
            final(self).peers() == without(old(self).peers(), addr),
            !final(self).peers().contains(addr),
            match r {
                Some(h) => holds(old(self)@, addr) && h == old(self)@[slot(old(self)@, addr)].1
                    && final(self)@ == old(self)@.remove(slot(old(self)@, addr)),
                None => !holds(old(self)@, addr) && final(self)@ == old(self)@,
            },
    {
        let found = self.find(addr);
        proof {
            lemma_without(self.peers(), addr);
        }
        match found {
            Some(i) => {
                let mut sessions: Vec<(PeerAddr, H)> = Vec::new();
                std::mem::swap(&mut self.sessions, &mut sessions);
                let ghost before = sessions@;
                let gone = sessions.remove(i);
                proof {
                    lemma_without_at(addresses(before), i as int);
                    assert(addresses(sessions@) =~= addresses(before).remove(i as int));
                }
                self.sessions = sessions;
                Some(gone.1)
            },
            None => {
                proof {
                    if self.peers().contains(addr) {
                        let i = choose|i: int|
                            0 <= i < self.peers().len() && self.peers()[i] == addr;
                        assert(self@[i].0 == addr);
                    }
                }
                None
            },
        }
    }

    /// Plans a broadcast: one delivery of the line for every session, in the
    /// order of their registration. A write that fails later concerns that
    /// session alone; the other deliveries of the plan stand.
    pub fn broadcast(&self, line: &[u8]) -> (out: Vec<Delivery>)
        ensures
            delivery_views(out@) == to_each(self.peers(), line@),
    {
        let everyone = self.everyone();
        let mut out: Vec<Delivery> = Vec::new();
        assert(delivery_views(out@) =~= Seq::<(PeerAddr, Seq<u8>)>::empty());
        push_to_each(&mut out, &everyone, line);
        assert(delivery_views(out@) =~= to_each(self.peers(), line@));
        out
    }

    /// Plans a broadcast to every session but the one of `except`.
    pub fn broadcast_to_others(&self, except: PeerAddr, line: &[u8]) -> (out: Vec<Delivery>)
        ensures
            delivery_views(out@) == to_each(without(self.peers(), except), line@),
    {
        let others = self.others(except);
        let mut out: Vec<Delivery> = Vec::new();
        assert(delivery_views(out@) =~= Seq::<(PeerAddr, Seq<u8>)>::empty());
        push_to_each(&mut out, &others, line);
        assert(delivery_views(out@) =~= to_each(without(self.peers(), except), line@));
        out
    }

    /// The addresses of all sessions, in the order of their registration.
    pub fn everyone(&self) -> (r: Vec<PeerAddr>)
        ensures
            r@ == self.peers(),
            r@.no_duplicates(),
    {
        proof {
            use_type_invariant(self);
        }
        let mut r: Vec<PeerAddr> = Vec::new();
        let mut i: usize = 0;
        while i < self.sessions.len()
            invariant
                i <= self.sessions@.len(),
                r@ == addresses(self.sessions@).take(i as int),
            decreases self.sessions@.len() - i,
        {
            r.push(self.sessions[i].0);
            proof {
                assert(r@ =~= addresses(self.sessions@).take(i + 1));
            }
            i += 1;
        }
        proof {
            assert(r@ =~= addresses(self.sessions@));
        }
        r
    }

    /// The addresses of all sessions but the one of `except`, in the order
    /// of their registration.
    pub fn others(&self, except: PeerAddr) -> (r: Vec<PeerAddr>)
        ensures
            r@ == without(self.peers(), except),
            r@.no_duplicates(),
            !r@.contains(except),
    {
        proof {
            use_type_invariant(self);
            lemma_without(self.peers(), except);
        }
        let mut r: Vec<PeerAddr> = Vec::new();
        let mut i: usize = 0;
        while i < self.sessions.len()
            invariant
                i <= self.sessions@.len(),
                r@ == without(addresses(self.sessions@).take(i as int), except),
            decreases self.sessions@.len() - i,
        {
            proof {
                let next = addresses(self.sessions@).take(i + 1);
                assert(next.drop_last() =~= addresses(self.sessions@).take(i as int));
                assert(next.last() == self.sessions@[i as int].0);
            }
            if self.sessions[i].0 != except {
                r.push(self.sessions[i].0);
            }
            i += 1;
        }
        proof {
            assert(addresses(self.sessions@).take(i as int) =~= addresses(self.sessions@));
        }
        r
    }
}

/// In a sequence without repetition, `without` takes out one place.
pub proof fn lemma_without_at(peers: Seq<PeerAddr>, at: int)
    requires
        peers.no_duplicates(),
        0 <= at < peers.len(),
    ensures
        without(peers, peers[at]) == peers.remove(at),
    decreases peers.len(),
{
    let gone = peers[at];
    let front = peers.drop_last();
    if at == peers.len() - 1 {
        assert(!front.contains(gone)) by {
            if front.contains(gone) {
                let i = choose|i: int| 0 <= i < front.len() && front[i] == gone;
                assert(peers[i] == peers[at]);
            }
        }
        lemma_without(front, gone);
        assert(peers.remove(at) =~= front);
    } else {
        assert(peers.last() != gone);
        assert(front[at] == gone);
        lemma_without_at(front, at);
        assert(front.remove(at).push(peers.last()) =~= peers.remove(at));
    }
}

/// After a join or a leave, every session is sent the new presence table,
/// the sender's session too, and each before any copy of the line itself:
/// the first deliveries are the table's, one for each session in order, and
/// the copies of the line follow.
pub proof fn lemma_snapshot_reaches_everyone(
    peers: Seq<PeerAddr>,
    presence: Map<Seq<char>, Seq<char>>,
    from: PeerAddr,
    msg: MessageTypeView,
    line: Seq<u8>,
)
    requires
        is_control(msg),
    ensures
        ({
            let sent = message_deliveries(peers, presence, from, msg, line);
            let table = encode_spec(MessageTypeView::UserList(presence_after(presence, msg)));
            &&& sent.len() == peers.len() + without(peers, from).len()
            &&& forall|i: int| 0 <= i < peers.len() ==> #[trigger] sent[i] == (peers[i], table)
            &&& forall|i: int|
                peers.len() <= i < sent.len() ==> #[trigger] sent[i] == (
                    without(peers, from)[i - peers.len()],
                    line,
                )
        }),
{
}

/// What happens at a relay.
pub enum RoomEvent {
    /// A connection from this address was accepted.
    Accepted(PeerAddr),
    /// A line arrived from this address.
    Line(PeerAddr, Seq<u8>),
    /// The connection from this address was closed.
    Closed(PeerAddr),
}

/// What a relay is, apart from the handles: the addresses of its sessions,
/// and who is present.
pub struct RoomState {
    pub peers: Seq<PeerAddr>,
    pub presence: Map<Seq<char>, Seq<char>>,
}

/// The relay after an event.
pub open spec fn state_after(state: RoomState, event: RoomEvent) -> RoomState {
    match event {
        RoomEvent::Accepted(addr) => RoomState {
            peers: if state.peers.contains(addr) {
                state.peers
            } else {
                state.peers.push(addr)
            },
            presence: state.presence,
        },
        RoomEvent::Line(from, line) => RoomState {
            peers: state.peers,
            presence: presence_after_line(state.presence, line),
        },
        RoomEvent::Closed(addr) => RoomState {
            peers: without(state.peers, addr),
            presence: state.presence,
        },
    }
}

/// What the relay sends on an event.
pub open spec fn sent_on(state: RoomState, event: RoomEvent) -> Seq<(PeerAddr, Seq<u8>)> {
    match event {
        RoomEvent::Line(from, line) => line_deliveries(state.peers, state.presence, from, line),
        _ => Seq::empty(),
    }
}

/// Appends one delivery of `line` for each of `peers`.
fn push_to_each(out: &mut Vec<Delivery>, peers: &Vec<PeerAddr>, line: &[u8])
    ensures
        delivery_views(final(out)@) == delivery_views(old(out)@) + to_each(peers@, line@),
{
    let ghost before = delivery_views(out@);
    let mut i: usize = 0;
    while i < peers.len()
        invariant
            i <= peers@.len(),
            delivery_views(out@) == before + to_each(peers@.take(i as int), line@),
        decreases peers@.len() - i,
    {
        let mut copy: Vec<u8> = Vec::new();
        copy.extend_from_slice(line);
        let ghost sent = delivery_views(out@);
        out.push(Delivery { to: peers[i], line: copy });
        proof {
            assert(copy@ =~= line@);
            assert(delivery_views(out@) =~= sent.push((peers@[i as int], line@)));
            assert(to_each(peers@.take(i + 1), line@) =~= to_each(peers@.take(i as int), line@).push(
                (peers@[i as int], line@),
            ));
            assert(before + to_each(peers@.take(i as int), line@).push((peers@[i as int], line@))
                =~= (before + to_each(peers@.take(i as int), line@)).push(
                (peers@[i as int], line@),
            ));
        }
        i += 1;
    }
    proof {
        assert(peers@.take(i as int) =~= peers@);
    }
}

/// A room of the relay: its name, its sessions and its presence table.
#[derive(Debug)]
pub struct Room<H> {
    name: String,
    registry: Registry<H>,
    presence: PresenceTable,
}

impl<H> Room<H> {
    /// The addresses of the sessions, in the order of their registration.
    pub closed spec fn peers(&self) -> Seq<PeerAddr> {
        self.registry.peers()
    }

    /// The sessions with their handles.
    pub closed spec fn sessions(&self) -> Seq<(PeerAddr, H)> {
        self.registry@
    }

    /// The presence table.
    pub closed spec fn presence(&self) -> Map<Seq<char>, Seq<char>> {
        self.presence@
    }

    /// The relay apart from its handles.
    pub open spec fn state(&self) -> RoomState {
        RoomState { peers: self.peers(), presence: self.presence() }
    }

    /// The name of the room.
    pub closed spec fn name(&self) -> Seq<char> {
        self.name@
    }

    /// A room of this name, without sessions and with nobody present.
    pub fn new(name: String) -> (r: Self)
        ensures
            r.name() == name@,
            r.peers() == Seq::<PeerAddr>::empty(),
            r.sessions() == Seq::<(PeerAddr, H)>::empty(),
            r.presence() == Map::<Seq<char>, Seq<char>>::empty(),
    {
        let r = Room { name, registry: Registry::new(), presence: PresenceTable::new() };
        assert(r.peers() =~= Seq::<PeerAddr>::empty());
        r
    }

    /// The name of the room.
    pub fn room_name(&self) -> (r: &str)
        ensures
            r@ == self.name(),
    {
        self.name.as_str()
    }

    /// The registry of sessions.
    pub fn registry(&self) -> (r: &Registry<H>)
        ensures
            r@ == self.sessions(),
            r.peers() == self.peers(),
    {
        &self.registry
    }

    /// The presence table.
    pub fn presence_table(&self) -> (r: &PresenceTable)
        ensures
            r@ == self.presence(),
    {
        &self.presence
    }

    /// A connection was accepted: its write handle is registered under the
    /// peer's address. Nobody's presence changes.
    pub fn accept(&mut self, addr: PeerAddr, handle: H) -> (r: Option<H>)
        ensures
            final(self).name() == old(self).name(),
            final(self).state() == state_after(old(self).state(), RoomEvent::Accepted(addr)),
            final(self).peers().no_duplicates(),
            final(self).peers().contains(addr),
            match r {
                Some(before) => holds(old(self).sessions(), addr) && before == old(self).sessions()[slot(
                    old(self).sessions(),
                    addr,
                )].1 && final(self).sessions() == old(self).sessions().update(
                    slot(old(self).sessions(), addr),
                    (addr, handle),
                ),
                None => !holds(old(self).sessions(), addr) && final(self).sessions() == old(
                    self,
                ).sessions().push((addr, handle)),
            },
    {
        let ghost before = self.registry@;
        let known = self.registry.contains(addr);
        let r = self.registry.register(addr, handle);
        proof {
            if known {
                assert(addresses(self.registry@) =~= addresses(before));
            } else {
                assert(addresses(self.registry@) =~= addresses(before).push(addr));
            }
        }
        r
    }

    /// A connection was closed, by end of stream or by an error: its session
    /// leaves the registry. The presence table stays as it is: only a leave
    /// message takes a name out.
    pub fn close(&mut self, addr: PeerAddr) -> (r: Option<H>)
        ensures
            final(self).name() == old(self).name(),
            final(self).state() == state_after(old(self).state(), RoomEvent::Closed(addr)),
            !final(self).peers().contains(addr),
            match r {
                Some(h) => holds(old(self).sessions(), addr) && h == old(self).sessions()[slot(
                    old(self).sessions(),
                    addr,
                )].1 && final(self).sessions() == old(self).sessions().remove(
                    slot(old(self).sessions(), addr),
                ),
                None => !holds(old(self).sessions(), addr) && final(self).sessions() == old(
                    self,
                ).sessions(),
            },
    {
        self.registry.unregister(addr)
    }

    /// Plans the broadcast of a message to every session of the room.
    pub fn broadcast(&self, msg: &MessageType) -> (out: Vec<Delivery>)
        ensures
            delivery_views(out@) == to_each(self.peers(), encode_spec(msg@)),
    {
        let line = encode(msg);
        self.registry.broadcast(line.as_slice())
    }

    /// A message has arrived from `from`, as the line `line`. The presence
    /// table takes it in. After a join or a leave the new table goes to
    /// every session; then the line goes, as it came, to every session but
    /// the sender's.
    pub fn on_message(&mut self, from: PeerAddr, msg: &MessageType, line: &[u8]) -> (out: Vec<
        Delivery,
    >)
        ensures
            final(self).name() == old(self).name(),
            final(self).sessions() == old(self).sessions(),
            final(self).peers() == old(self).peers(),
            final(self).presence() == presence_after(old(self).presence(), msg@),
            delivery_views(out@) == message_deliveries(
                old(self).peers(),
                old(self).presence(),
                from,
                msg@,
                line@,
            ),
    {
        let mut out: Vec<Delivery> = Vec::new();
        assert(delivery_views(out@) =~= Seq::<(PeerAddr, Seq<u8>)>::empty());
        match self.presence.apply_control(msg) {
            Some(snapshot) => {
                let everyone = self.registry.everyone();
                let text = encode(&snapshot);
                push_to_each(&mut out, &everyone, text.as_slice());
            },
            None => {},
        }
        let others = self.registry.others(from);
        let ghost first = delivery_views(out@);
        push_to_each(&mut out, &others, line);
        proof {
            if !is_control(msg@) {
                assert(first =~= Seq::<(PeerAddr, Seq<u8>)>::empty());
            } else {
                assert(first =~= to_each(
                    old(self).peers(),
                    encode_spec(MessageTypeView::UserList(presence_after(old(self).presence(), msg@))),
                ));
            }
        }
        out
    }

    /// A line has arrived from `from`. A line that decodes is handled as
    /// `on_message` says; a line that does not is dropped: nothing is sent
    /// and nothing changes.
    pub fn on_line(&mut self, from: PeerAddr, line: &[u8]) -> (out: Vec<Delivery>)
        ensures
            final(self).name() == old(self).name(),
            final(self).sessions() == old(self).sessions(),
            final(self).state() == state_after(old(self).state(), RoomEvent::Line(from, line@)),
            delivery_views(out@) == sent_on(old(self).state(), RoomEvent::Line(from, line@)),
    {
        match decode(line) {
            Ok(msg) => self.on_message(from, &msg, line),
            Err(_) => {
                let out: Vec<Delivery> = Vec::new();
                assert(delivery_views(out@) =~= Seq::<(PeerAddr, Seq<u8>)>::empty());
                out
            },
        }
    }
}

/// Of a message that is neither join nor leave, each
/// session but the sender's gets exactly one copy, the line as it came, and
/// the sender's session gets none; with the sender registered among `n`
/// sessions that makes `n - 1` deliveries.
pub proof fn lemma_fan_out(
    peers: Seq<PeerAddr>,
    presence: Map<Seq<char>, Seq<char>>,
    from: PeerAddr,
    msg: MessageTypeView,
    line: Seq<u8>,
)
    requires
        peers.no_duplicates(),
        !is_control(msg),
    ensures
        ({
            let sent = message_deliveries(peers, presence, from, msg, line);
            &&& sent == to_each(without(peers, from), line)
            &&& forall|i: int| 0 <= i < sent.len() ==> (#[trigger] sent[i]).1 == line
            &&& forall|i: int| 0 <= i < sent.len() ==> (#[trigger] sent[i]).0 != from
            &&& forall|i: int, j: int|
                0 <= i < j < sent.len() ==> (#[trigger] sent[i]).0 != (#[trigger] sent[j]).0
            &&& forall|p: PeerAddr|
                peers.contains(p) && p != from ==> exists|i: int|
                    0 <= i < sent.len() && #[trigger] sent[i] == (p, line)
            &&& peers.contains(from) ==> sent.len() == peers.len() - 1
        }),
{
    lemma_without(peers, from);
    let others = without(peers, from);
    let sent = message_deliveries(peers, presence, from, msg, line);
    assert(sent =~= to_each(others, line));
    assert forall|i: int| 0 <= i < sent.len() implies (#[trigger] sent[i]).0 != from by {
        assert(others.contains(others[i]));
    }
    assert forall|p: PeerAddr| peers.contains(p) && p != from implies exists|i: int|
        0 <= i < sent.len() && #[trigger] sent[i] == (p, line) by {
        assert(others.contains(p));
        let i = choose|i: int| 0 <= i < others.len() && others[i] == p;
        assert(sent[i] == (p, line));
    }
}

/// The relay after a sequence of events, the first handled first.
pub open spec fn state_after_all(state: RoomState, events: Seq<RoomEvent>) -> RoomState
    decreases events.len(),
{
    if events.len() == 0 {
        state
    } else {
        state_after_all(state_after(state, events[0]), events.skip(1))
    }
}

/// Everything that the relay sends during a sequence of events, in order.
pub open spec fn sent_on_all(state: RoomState, events: Seq<RoomEvent>) -> Seq<
    (PeerAddr, Seq<u8>),
>
    decreases events.len(),
{
    if events.len() == 0 {
        Seq::empty()
    } else {
        sent_on(state, events[0]) + sent_on_all(state_after(state, events[0]), events.skip(1))
    }
}

/// A line that does not decode, arriving from
/// anyone at any moment, changes nothing of what the relay is afterwards
/// and nothing of what it sends, before or after.
pub proof fn lemma_malformed_line_isolated(
    state: RoomState,
    before: Seq<RoomEvent>,
    from: PeerAddr,
    bad: Seq<u8>,
    after: Seq<RoomEvent>,
)
    requires
        decode_spec(bad) is Err,
    ensures
        state_after_all(state, before + seq![RoomEvent::Line(from, bad)] + after)
            == state_after_all(state, before + after),
        sent_on_all(state, before + seq![RoomEvent::Line(from, bad)] + after) == sent_on_all(
            state,
            before + after,
        ),
    decreases before.len(),
{
    let with = before + seq![RoomEvent::Line(from, bad)] + after;
    let plain = before + after;
    if before.len() == 0 {
        assert(with[0] == RoomEvent::Line(from, bad));
        assert(with.skip(1) =~= after);
        assert(plain =~= after);
        assert(state_after(state, with[0]) == state);
        assert(sent_on(state, with[0]) =~= Seq::<(PeerAddr, Seq<u8>)>::empty());
        assert(Seq::<(PeerAddr, Seq<u8>)>::empty() + sent_on_all(state, after) =~= sent_on_all(
            state,
            after,
        ));
    } else {
        let next = state_after(state, before[0]);
        assert(with[0] == before[0]);
        assert(plain[0] == before[0]);
        assert(with.skip(1) =~= before.skip(1) + seq![RoomEvent::Line(from, bad)] + after);
        assert(plain.skip(1) =~= before.skip(1) + after);
        lemma_malformed_line_isolated(next, before.skip(1), from, bad, after);
    }
}

/// Where one connection stands at the relay.
#[derive(Debug, Clone, Copy, PartialEq, Eq, Hash, Structural)]
pub enum SessionPhase {
    /// The connection was accepted.
    Accepted,
    /// Its write handle is in the registry.
    Registered,
    /// Its reader runs.
    Reading,
    /// Its stream ended or failed; it is about to leave the registry.
    Closing,
    /// It has left the registry. Nothing follows.
    Unregistered,
}

/// What happens to one connection at the relay.
#[derive(Debug, Clone, Copy, PartialEq, Eq, Hash, Structural)]
pub enum SessionEvent {
    /// The write handle was put into the registry.
    Registered,
    /// The reader was started.
    ReaderStarted,
    /// A line was read, well-formed or not.
    Line,
    /// The stream ended.
    EndOfStream,
    /// Reading failed.
    ReadError,
    /// The write handle was taken out of the registry.
    Removed,
}

/// The phase of a connection after an event. A line, whatever it holds,
/// never ends a connection; the end of the stream and a read error do. An
/// event that does not belong to the phase changes nothing.
pub open spec fn session_after(phase: SessionPhase, event: SessionEvent) -> SessionPhase {
    match (phase, event) {
        (SessionPhase::Accepted, SessionEvent::Registered) => SessionPhase::Registered,
        (SessionPhase::Registered, SessionEvent::ReaderStarted) => SessionPhase::Reading,
        (SessionPhase::Reading, SessionEvent::EndOfStream) => SessionPhase::Closing,
        (SessionPhase::Reading, SessionEvent::ReadError) => SessionPhase::Closing,
        (SessionPhase::Closing, SessionEvent::Removed) => SessionPhase::Unregistered,
        _ => phase,
    }
}

impl SessionPhase {
    /// The phase after an event.
    pub fn advance(self, event: SessionEvent) -> (r: SessionPhase)
        ensures
            r == session_after(self, event),
    {
        match (self, event) {
            (SessionPhase::Accepted, SessionEvent::Registered) => SessionPhase::Registered,
            (SessionPhase::Registered, SessionEvent::ReaderStarted) => SessionPhase::Reading,
            (SessionPhase::Reading, SessionEvent::EndOfStream) => SessionPhase::Closing,
            (SessionPhase::Reading, SessionEvent::ReadError) => SessionPhase::Closing,
            (SessionPhase::Closing, SessionEvent::Removed) => SessionPhase::Unregistered,
            _ => self,
        }
    }

    /// Whether the connection still takes deliveries: from its registration
    /// until its stream ends or fails.
    pub fn is_live(self) -> (r: bool)
        ensures
            r == (self == SessionPhase::Registered || self == SessionPhase::Reading),
    {
        match self {
            SessionPhase::Registered => true,
            SessionPhase::Reading => true,
            _ => false,
        }
    }
}

} // verus!
