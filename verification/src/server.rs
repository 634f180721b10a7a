//! The registry: the one owner of sessions, rooms and room keys, and the
//! requests that connections make of it.

use crate::queue::{lemma_refund_keeps_apart, lemma_reserve_keeps_apart, PoolView, Queue};
use crate::text::{decimal, list_text, push_decimal, push_list};
use rand::Rng;
use std::collections::{HashMap, HashSet};
use vstd::prelude::*;
use vstd::std_specs::iter::IteratorSpec;
use vstd::string::StringExecFns;

verus! {

/// How many members a room takes.
pub const ROOM_CAP: usize = 10;

/// A text on its way to one connection.
#[derive(Debug, Clone, PartialEq, Eq)]
pub struct Message(pub String);

impl View for Message {
    type V = Seq<char>;

    open spec fn view(&self) -> Seq<char> {
        self.0@
    }
}

/// A new connection registers itself in the room it was admitted to.
#[derive(Debug, Clone, Copy, PartialEq, Eq)]
pub struct Connect {
    pub room: usize,
}

/// A connection has gone.
#[derive(Debug, Clone, Copy, PartialEq, Eq)]
pub struct Disconnect {
    pub id: usize,
    pub room: usize,
}

/// A text for everybody else in the sender's room.
#[derive(Debug, Clone, PartialEq, Eq)]
pub struct ClientMessage {
    /// Id of the client session
    pub id: usize,
    /// Peer message
    pub msg: String,
    /// Room name
    pub room: usize,
}

pub struct ClientMessageView {
    pub id: usize,
    pub msg: Seq<char>,
    pub room: usize,
}

impl View for ClientMessage {
    type V = ClientMessageView;

    open spec fn view(&self) -> ClientMessageView {
        ClientMessageView { id: self.id, msg: self.msg@, room: self.room }
    }
}

/// Which rooms are there?
#[derive(Debug, Clone, Copy, PartialEq, Eq)]
pub struct ListRooms;

/// What is the key of this room?
#[derive(Debug, Clone, Copy, PartialEq, Eq)]
pub struct Room {
    pub name: usize,
}

#[derive(Debug, Clone, Copy, PartialEq, Eq)]
pub enum InviteResult {
    Asked,
    RoomDontExist,
}

/// Session `id` of room `from_room` invites the members of `room`.
#[derive(Debug, Clone, Copy, PartialEq, Eq)]
pub struct Invite {
    pub id: usize,
    pub room: usize,
    pub from_room: usize,
}

/// Who is in this room?
#[derive(Debug, Clone, Copy, PartialEq, Eq)]
pub struct Members {
    pub room: usize,
}

/// A text for one member of the sender's room.
#[derive(Debug, Clone, PartialEq, Eq)]
pub struct Direct {
    pub room: usize,
    pub id_to: usize,
    pub id_from: usize,
    pub mess: String,
}

pub struct DirectView {
    pub room: usize,
    pub id_to: usize,
    pub id_from: usize,
    pub mess: Seq<char>,
}

impl View for Direct {
    type V = DirectView;

    open spec fn view(&self) -> DirectView {
        DirectView { room: self.room, id_to: self.id_to, id_from: self.id_from, mess: self.mess@ }
    }
}

#[derive(Debug, Clone, Copy, PartialEq, Eq)]
pub enum DirectResult {
    Send,
    IdDontExist,
}

#[derive(Debug, Clone, Copy, PartialEq, Eq)]
pub enum SendRoomKeyResult {
    Send,
    RoomDontExist,
}

/// Hand the key of `from_room` to session `id` in `room`.
#[derive(Debug, Clone, Copy, PartialEq, Eq)]
pub struct SendRoomKey {
    pub room: usize,
    pub from_room: usize,
    pub id: usize,
}

#[derive(Debug, Clone, Copy, PartialEq, Eq)]
pub enum JoinResult {
    Joined(usize),
    RoomDontExist,
    BadKey,
    FullRoom,
}

/// Session `id` leaves `room` for the room `name`, and shows `key` for it.
#[derive(Debug, Clone, Copy, PartialEq, Eq)]
pub struct Join {
    pub id: usize,
    pub name: usize,
    pub key: usize,
    pub room: usize,
}

/// A text together with the session that is to get it.
#[derive(Debug, Clone, PartialEq, Eq)]
pub struct Delivery {
    pub to: usize,
    pub message: Message,
}

/// A delivery as contracts speak of it.
pub struct DeliveryView {
    pub to: usize,
    pub text: Seq<char>,
}

impl View for Delivery {
    type V = DeliveryView;

    open spec fn view(&self) -> DeliveryView {
        DeliveryView { to: self.to, text: self.message@ }
    }
}

/// The views of a sequence of deliveries, one for one.
pub open spec fn delivery_views(out: Seq<Delivery>) -> Seq<DeliveryView> {
    Seq::new(out.len(), |i: int| out[i]@)
}

/// `out` hands `text` to each session of `to` once, and nothing to anybody
/// else.
pub open spec fn delivers(out: Seq<DeliveryView>, to: Set<usize>, text: Seq<char>) -> bool {
    &&& forall|i: int|
        0 <= i < out.len() ==> (#[trigger] out[i]).text == text && to.contains(out[i].to)
    &&& forall|i: int, j: int|
        0 <= i < j < out.len() ==> (#[trigger] out[i]).to != (#[trigger] out[j]).to
    &&& forall|id: usize| #[trigger]
        to.contains(id) ==> exists|i: int| 0 <= i < out.len() && (#[trigger] out[i]).to == id
}

/// `list` names each element of `set` once, in some order.
pub open spec fn lists(list: Seq<usize>, set: Set<usize>) -> bool {
    list.no_duplicates() && list.to_set() == set
}

/// The text that tells a room who its members are.
pub open spec fn members_text(ids: Seq<usize>) -> Seq<char> {
    "/members "@ + list_text(ids)
}

/// The text that carries what session `id` says to its room.
pub open spec fn message_text(id: usize, msg: Seq<char>) -> Seq<char> {
    "/message "@ + decimal(id as nat) + " "@ + msg
}

/// The text that invites a room on behalf of session `id` of `from_room`.
pub open spec fn invite_text(from_room: usize, id: usize) -> Seq<char> {
    "/invite "@ + decimal(from_room as nat) + " "@ + decimal(id as nat)
}

/// The text that hands over the key of `from_room`.
pub open spec fn key_text(from_room: usize, key: usize) -> Seq<char> {
    "/send "@ + decimal(from_room as nat) + " Some("@ + decimal(key as nat) + ")"@
}

/// The text that carries what session `id_from` says to one session.
pub open spec fn direct_text(id_from: usize, mess: Seq<char>) -> Seq<char> {
    "/direct_message "@ + decimal(id_from as nat) + " "@ + mess
}

/// `out` tells every registered member of `room` who the members of the
/// room are, in some order.
pub open spec fn announces(out: Seq<DeliveryView>, v: RegistryView, room: usize) -> bool {
    exists|ids: Seq<usize>| #[trigger]
        lists(ids, v.members(room)) && delivers(out, v.audience(room, None), members_text(ids))
}

/// `out` tells the members of `room` who they are, and after that the
/// members of `name` who they are.
pub open spec fn announces_both(
    out: Seq<DeliveryView>,
    v: RegistryView,
    room: usize,
    name: usize,
) -> bool {
    exists|k: int|
        0 <= k <= out.len() && announces(#[trigger] out.take(k), v, room) && announces(
            out.skip(k),
            v,
            name,
        )
}

/// The mathematical state of the registry.
pub struct RegistryView {
    /// The sessions that are registered.
    pub sessions: Set<usize>,
    /// The members of each room.
    pub rooms: Map<usize, Set<usize>>,
    /// The key of each room that has one.
    pub keys: Map<usize, usize>,
}

impl RegistryView {
    pub open spec fn empty() -> RegistryView {
        RegistryView { sessions: Set::empty(), rooms: Map::empty(), keys: Map::empty() }
    }

    /// What the registry maintains: no room is empty, every room has
    /// finitely many members, and only rooms have keys.
    pub open spec fn wf(self) -> bool {
        &&& forall|r: usize| #[trigger]
            self.rooms.contains_key(r) ==> self.rooms[r].finite() && self.rooms[r].len() > 0
        &&& forall|r: usize| #[trigger] self.keys.contains_key(r) ==> self.rooms.contains_key(r)
    }

    /// The members of `room`: nobody if there is no such room.
    pub open spec fn members(self, room: usize) -> Set<usize> {
        if self.rooms.contains_key(room) {
            self.rooms[room]
        } else {
            Set::empty()
        }
    }

    /// Who gets a text that is sent round `room`: its members that are
    /// registered sessions, but for `skip`.
    pub open spec fn audience(self, room: usize, skip: Option<usize>) -> Set<usize> {
        Set::new(
            |id: usize|
                self.members(room).contains(id) && self.sessions.contains(id) && skip != Some(id),
        )
    }

    /// Who gets a text that is sent to `id` in `room`: `id`, if it is a
    /// member of the room and a registered session, and nobody otherwise.
    pub open spec fn recipient(self, room: usize, id: usize) -> Set<usize> {
        Set::new(
            |x: usize| x == id && self.members(room).contains(id) && self.sessions.contains(id),
        )
    }

    /// Whether `room` is left without members once `id` has gone from it.
    pub open spec fn empties(self, id: usize, room: usize) -> bool {
        self.rooms.contains_key(room) && self.rooms[room].remove(id).is_empty()
    }

    /// The registry after `id` has gone from `room`: a room that is left
    /// without members is deleted, and its key with it.
    pub open spec fn leave(self, id: usize, room: usize) -> RegistryView {
        if !self.rooms.contains_key(room) {
            self
        } else if self.empties(id, room) {
            RegistryView { rooms: self.rooms.remove(room), keys: self.keys.remove(room), ..self }
        } else {
            RegistryView { rooms: self.rooms.insert(room, self.rooms[room].remove(id)), ..self }
        }
    }

    /// The registry after `id` has become a member of `room`, which is made
    /// if it is not there.
    pub open spec fn enter(self, id: usize, room: usize) -> RegistryView {
        RegistryView { rooms: self.rooms.insert(room, self.members(room).insert(id)), ..self }
    }

    /// The registry after a new session `id` has registered in `room`. If
    /// the room is not there it is made, with `key` as its key.
    pub open spec fn connect(self, room: usize, id: usize, key: usize) -> RegistryView {
        RegistryView {
            sessions: self.sessions.insert(id),
            keys: if self.rooms.contains_key(room) {
                self.keys
            } else {
                self.keys.insert(room, key)
            },
            ..self.enter(id, room)
        }
    }

    /// The registry after session `id`, which says that it is in `room`, has
    /// gone. A session that is not registered changes nothing.
    pub open spec fn disconnect(self, id: usize, room: usize) -> RegistryView {
        if self.sessions.contains(id) {
            RegistryView { sessions: self.sessions.remove(id), ..self.leave(id, room) }
        } else {
            self
        }
    }

    /// Whether the slot of `room` goes back to the pool when session `id`
    /// disconnects from it.
    pub open spec fn disconnect_frees(self, id: usize, room: usize) -> bool {
        self.sessions.contains(id) && self.empties(id, room)
    }

    /// What a request to join is answered with.
    pub open spec fn join_result(self, j: Join) -> JoinResult {
        if !self.keys.contains_key(j.name) {
            JoinResult::RoomDontExist
        } else if self.keys[j.name] != j.key {
            JoinResult::BadKey
        } else if !self.rooms.contains_key(j.name) {
            JoinResult::RoomDontExist
        } else if self.rooms[j.name].len() >= ROOM_CAP {
            JoinResult::FullRoom
        } else {
            JoinResult::Joined(j.name)
        }
    }

    /// The registry after a request to join: only an admission changes it.
    pub open spec fn join(self, j: Join) -> RegistryView {
        if self.join_result(j) is Joined {
            self.leave(j.id, j.room).enter(j.id, j.name)
        } else {
            self
        }
    }

    /// Whether both rooms of a request to hand a key over are there, each
    /// with its key.
    pub open spec fn can_send_key(self, room: usize, from_room: usize) -> bool {
        &&& self.rooms.contains_key(room)
        &&& self.keys.contains_key(room)
        &&& self.rooms.contains_key(from_room)
        &&& self.keys.contains_key(from_room)
    }

    /// The key of `room`, if it has one.
    pub open spec fn key(self, room: usize) -> Option<usize> {
        if self.keys.contains_key(room) {
            Some(self.keys[room])
        } else {
            None
        }
    }
}

/// The registry of sessions, rooms and room keys.
#[derive(Debug)]
pub struct ChatServer {
    sessions: HashSet<usize>,
    rooms: HashMap<usize, HashSet<usize>>,
    keys: HashMap<usize, usize>,
}

impl View for ChatServer {
    type V = RegistryView;

    closed spec fn view(&self) -> RegistryView {
        RegistryView {
            sessions: self.sessions@,
            rooms: Map::new(
                |r: usize| self.rooms@.contains_key(r),
                |r: usize| self.rooms@[r]@,
            ),
            keys: self.keys@,
        }
    }
}

/// The elements of `set`, each once, in the order in which the set hands
/// them out.
fn listing(set: &HashSet<usize>) -> (v: Vec<usize>)
    ensures
        lists(v@, set@),
{
    broadcast use vstd::std_specs::hash::group_hash_axioms;

    let mut v: Vec<usize> = Vec::new();
    let ghost all = set.iter().remaining();
    for x in it: set.iter()
        invariant
            v@.len() == it.index(),
            forall|i: int| 0 <= i < v@.len() ==> v@[i] == *all[i],
            it.seq() == all,
    {
        v.push(*x);
    }
    assert(v@ =~= all.unref());
    v
}

impl ChatServer {
    /// A registry without sessions and rooms.
    pub fn new() -> (s: ChatServer)
        ensures
            s@ == RegistryView::empty(),
            s@.wf(),
    {
        broadcast use vstd::std_specs::hash::group_hash_axioms;

        let s = ChatServer {
            sessions: HashSet::new(),
            rooms: HashMap::new(),
            keys: HashMap::new(),
        };
        assert(s@.rooms =~= Map::empty());
        s
    }

    /// The rooms that there are, each once, in no particular order.
    pub fn list_rooms(&self, _msg: ListRooms) -> (rooms: Vec<usize>)
        ensures
            lists(rooms@, self@.rooms.dom()),
    {
        broadcast use vstd::std_specs::hash::group_hash_axioms;

        let mut rooms: Vec<usize> = Vec::new();
        let ghost all = self.rooms.keys().remaining();
        for key in it: self.rooms.keys()
            invariant
                rooms@.len() == it.index(),
                forall|i: int| 0 <= i < rooms@.len() ==> rooms@[i] == *all[i],
                it.seq() == all,
        {
            rooms.push(*key);
        }
        assert(rooms@ =~= all.unref());
        assert(self@.rooms.dom() =~= self.rooms@.dom());
        rooms
    }

    /// The members of `room`, each once, in no particular order; nobody if
    /// there is no such room.
    pub fn members(&self, mem: Members) -> (ids: Vec<usize>)
        ensures
            lists(ids@, self@.members(mem.room)),
    {
        broadcast use vstd::std_specs::hash::group_hash_axioms;

        match self.rooms.get(&mem.room) {
            Some(ids) => listing(ids),
            None => {
                let ids: Vec<usize> = Vec::new();
                assert(ids@.to_set() =~= Set::empty());
                ids
            },
        }
    }

    /// The key of the room `name`, if the room has one.
    pub fn room(&self, room: Room) -> (key: Option<usize>)
        ensures
            key == self@.key(room.name),
    {
        broadcast use vstd::std_specs::hash::group_hash_axioms;

        match self.keys.get(&room.name) {
            Some(k) => Some(*k),
            None => None,
        }
    }
}

impl ChatServer {
    /// Sends `message` round `room`: one delivery for each member that is a
    /// registered session, but for `skip_id`.
    fn send_message(&self, room: &usize, message: &str, skip_id: Option<usize>) -> (out: Vec<
        Delivery,
    >)
        ensures
            delivers(delivery_views(out@), self@.audience(*room, skip_id), message@),
    {
        broadcast use vstd::std_specs::hash::group_hash_axioms;

        let mut out: Vec<Delivery> = Vec::new();
        let l = match self.rooms.get(room) {
            Some(sessions) => listing(sessions),
            None => {
                return out;
            },
        };
        let ghost to = self@.audience(*room, skip_id);
        let ghost mut sent: Seq<usize> = Seq::empty();
        let mut n: usize = 0;
        while n < l.len()
            invariant
                n <= l.len(),
                l@.no_duplicates(),
                to == self@.audience(*room, skip_id),
                self@.members(*room) == l@.to_set(),
                out@.len() == sent.len(),
                forall|i: int|
                    0 <= i < sent.len() ==> (#[trigger] out@[i])@.to == sent[i] && out@[i]@.text
                        == message@,
                forall|i: int|
                    0 <= i < sent.len() ==> to.contains(#[trigger] sent[i]) && exists|k: int|
                        0 <= k < n && l@[k] == sent[i],
                sent.no_duplicates(),
                forall|k: int| 0 <= k < n && to.contains(#[trigger] l@[k]) ==> sent.contains(l@[k]),
            decreases l.len() - n,
        {
            let id = l[n];
            let skipped = match skip_id {
                Some(s) => s == id,
                None => false,
            };
            if !skipped && self.sessions.contains(&id) {
                out.push(Delivery { to: id, message: Message(String::from_str(message)) });
                proof {
                    let before = sent;
                    sent = sent.push(id);
                    assert forall|k: int|
                        0 <= k < n + 1 && to.contains(#[trigger] l@[k]) implies sent.contains(
                        l@[k],
                    ) by {
                        if k < n {
                            let i = choose|i: int| 0 <= i < before.len() && before[i] == l@[k];
                            assert(sent[i] == l@[k]);
                        } else {
                            assert(sent[sent.len() - 1] == l@[k]);
                        }
                    }
                }
            }
            n += 1;
        }
        proof {
            let v = delivery_views(out@);
            assert forall|id: usize| #[trigger] to.contains(id) implies exists|i: int|
                0 <= i < v.len() && (#[trigger] v[i]).to == id by {
                let k = choose|k: int| 0 <= k < l@.len() && l@[k] == id;
                assert(sent.contains(l@[k]));
                let i = choose|i: int| 0 <= i < sent.len() && sent[i] == id;
                assert(v[i].to == id);
            }
            assert forall|i: int| 0 <= i < v.len() implies (#[trigger] v[i]).to == sent[i]
                && v[i].text == message@ by {
                assert(out@[i]@.to == sent[i]);
            }
        }
        out
    }

    /// Sends `message` to `id` in `room`: one delivery if `id` is a member of
    /// the room and a registered session, none otherwise.
    fn send_message_to_id(&self, room: &usize, message: &str, id: usize) -> (out: Vec<Delivery>)
        ensures
            delivers(delivery_views(out@), self@.recipient(*room, id), message@),
    {
        broadcast use vstd::std_specs::hash::group_hash_axioms;

        let mut out: Vec<Delivery> = Vec::new();
        let present = match self.rooms.get(room) {
            Some(sessions) => sessions.contains(&id),
            None => false,
        };
        if present && self.sessions.contains(&id) {
            out.push(Delivery { to: id, message: Message(String::from_str(message)) });
            assert(delivery_views(out@)[0].to == id);
        }
        out
    }
}

impl ChatServer {
    /// Takes `id` out of `room`. A room that is left without members is
    /// deleted, its key is dropped and its identifier goes back to the pool.
    fn leave_room(&mut self, queue: &mut Queue, id: usize, room: usize)
        ensures
            final(self)@ == old(self)@.leave(id, room),
            final(queue)@ == if old(self)@.empties(id, room) {
                old(queue)@.release(room)
            } else {
                old(queue)@
            },
    {
        broadcast use vstd::std_specs::hash::group_hash_axioms;

        match self.rooms.remove(&room) {
            Some(mut sessions) => {
                sessions.remove(&id);
                if sessions.is_empty() {
                    queue.release(room);
                    self.keys.remove(&room);
                    assert(self@.rooms =~= old(self)@.rooms.remove(room));
                } else {
                    self.rooms.insert(room, sessions);
                    assert(self@.rooms =~= old(self)@.rooms.insert(
                        room,
                        old(self)@.rooms[room].remove(id),
                    ));
                }
            },
            None => {
                assert(self@.rooms =~= old(self)@.rooms);
            },
        }
    }

    /// Makes `id` a member of `room`, which is made if it is not there.
    fn enter_room(&mut self, id: usize, room: usize)
        ensures
            final(self)@ == old(self)@.enter(id, room),
    {
        broadcast use vstd::std_specs::hash::group_hash_axioms;

        let mut sessions = match self.rooms.remove(&room) {
            Some(sessions) => sessions,
            None => HashSet::new(),
        };
        sessions.insert(id);
        self.rooms.insert(room, sessions);
        assert(self@.rooms =~= old(self)@.rooms.insert(room, old(self)@.members(room).insert(id)));
    }
}

/// A number from `rand::thread_rng().gen::<usize>()`. Nothing is promised
/// of it: any number may come, and two calls may give the same one. The
/// first call on a thread seeds the generator from the operating system, and
/// panics if the operating system gives no seed.
#[verifier::external_body]
fn random_usize() -> (r: usize) {
    rand::thread_rng().gen::<usize>()
}

/// Leaving a room keeps the registry well formed.
pub proof fn lemma_leave_wf(v: RegistryView, id: usize, room: usize)
    requires
        v.wf(),
    ensures
        v.leave(id, room).wf(),
{
}

/// Entering a room keeps the registry well formed.
pub proof fn lemma_enter_wf(v: RegistryView, id: usize, room: usize)
    requires
        v.wf(),
    ensures
        v.enter(id, room).wf(),
{
}

impl ChatServer {
    /// Tells every registered member of `room` who the members of the room
    /// are.
    fn announce(&self, room: usize) -> (out: Vec<Delivery>)
        ensures
            announces(delivery_views(out@), self@, room),
    {
        let ids = self.members(Members { room });
        let mut text = String::from_str("/members ");
        push_list(&mut text, &ids);
        self.send_message(&room, text.as_str(), None)
    }

    /// Registers a new session under the number `id` in the room of `msg`.
    /// If the room is not there it is made, with `key` as its key. Returns
    /// `id`.
    pub fn connect_with(&mut self, msg: Connect, id: usize, key: usize) -> (res: usize)
        ensures
            res == id,
            final(self)@ == old(self)@.connect(msg.room, id, key),
            old(self)@.wf() ==> final(self)@.wf(),
    {
        broadcast use vstd::std_specs::hash::group_hash_axioms;

        let fresh = !self.rooms.contains_key(&msg.room);
        self.sessions.insert(id);
        self.enter_room(id, msg.room);
        if fresh {
            self.keys.insert(msg.room, key);
        }
        proof {
            if old(self)@.wf() {
                lemma_enter_wf(old(self)@, id, msg.room);
            }
        }
        id
    }

    /// Registers a new session in the room of `msg` under a number drawn at
    /// random, which is returned; a room that is made gets a key drawn at
    /// random.
    pub fn connect(&mut self, msg: Connect) -> (id: usize)
        ensures
            exists|key: usize| final(self)@ == #[trigger] old(self)@.connect(msg.room, id, key),
            old(self)@.wf() ==> final(self)@.wf(),
    {
        let id = random_usize();
        let key = random_usize();
        self.connect_with(msg, id, key)
    }

    /// Session `msg.id`, which says that it is in `msg.room`, has gone. A
    /// registered session is taken out of the sessions and out of that room;
    /// a room that is left without members is deleted and its identifier
    /// goes back to `queue`. The members that remain are told who they are.
    pub fn disconnect(&mut self, queue: &mut Queue, msg: Disconnect) -> (out: Vec<Delivery>)
        ensures
            final(self)@ == old(self)@.disconnect(msg.id, msg.room),
            final(queue)@ == if old(self)@.disconnect_frees(msg.id, msg.room) {
                old(queue)@.release(msg.room)
            } else {
                old(queue)@
            },
            announces(delivery_views(out@), final(self)@, msg.room),
            old(self)@.wf() ==> final(self)@.wf(),
    {
        broadcast use vstd::std_specs::hash::group_hash_axioms;

        let Disconnect { id, room } = msg;
        if self.sessions.remove(&id) {
            let ghost mid = self@;
            assert(mid == (RegistryView {
                sessions: old(self)@.sessions.remove(id),
                ..old(self)@
            }));
            self.leave_room(queue, id, room);
        } else {
            assert(self@.sessions =~= old(self)@.sessions);
        }
        proof {
            if old(self)@.wf() {
                lemma_leave_wf(old(self)@, id, room);
            }
        }
        self.announce(room)
    }

    /// Session `msg.id` says `msg.msg` to everybody else in `msg.room`.
    pub fn client_message(&self, msg: ClientMessage) -> (out: Vec<Delivery>)
        ensures
            delivers(
                delivery_views(out@),
                self@.audience(msg.room, Some(msg.id)),
                message_text(msg.id, msg.msg@),
            ),
    {
        let mut text = String::from_str("/message ");
        push_decimal(&mut text, msg.id);
        text.append(" ");
        text.append(msg.msg.as_str());
        self.send_message(&msg.room, text.as_str(), Some(msg.id))
    }

    /// Session `mess.id_from` says `mess.mess` to session `mess.id_to` in
    /// `mess.room`. The text goes to that session alone, and only if it is a
    /// member of the room.
    pub fn direct(&self, mess: Direct) -> (res: (DirectResult, Vec<Delivery>))
        ensures
            res.0 == if self@.members(mess.room).contains(mess.id_to) {
                DirectResult::Send
            } else {
                DirectResult::IdDontExist
            },
            delivers(
                delivery_views(res.1@),
                self@.recipient(mess.room, mess.id_to),
                direct_text(mess.id_from, mess.mess@),
            ),
    {
        broadcast use vstd::std_specs::hash::group_hash_axioms;

        let idisinroom = match self.rooms.get(&mess.room) {
            Some(ids) => ids.contains(&mess.id_to),
            None => false,
        };
        let mut text = String::from_str("/direct_message ");
        push_decimal(&mut text, mess.id_from);
        text.append(" ");
        text.append(mess.mess.as_str());
        let out = self.send_message_to_id(&mess.room, text.as_str(), mess.id_to);
        if idisinroom {
            (DirectResult::Send, out)
        } else {
            (DirectResult::IdDontExist, out)
        }
    }

    /// Session `data.id` of `data.from_room` invites the members of
    /// `data.room`: each of them is told so, if the room is there.
    pub fn invite(&self, data: Invite) -> (res: (InviteResult, Vec<Delivery>))
        ensures
            res.0 == if self@.rooms.contains_key(data.room) {
                InviteResult::Asked
            } else {
                InviteResult::RoomDontExist
            },
            delivers(
                delivery_views(res.1@),
                self@.audience(data.room, None),
                invite_text(data.from_room, data.id),
            ),
    {
        broadcast use vstd::std_specs::hash::group_hash_axioms;

        let mut text = String::from_str("/invite ");
        push_decimal(&mut text, data.from_room);
        text.append(" ");
        push_decimal(&mut text, data.id);
        let out = self.send_message(&data.room, text.as_str(), None);
        if !self.rooms.contains_key(&data.room) {
            return (InviteResult::RoomDontExist, out);
        }
        (InviteResult::Asked, out)
    }

    /// Hands the key of `data.from_room` to session `data.id` in
    /// `data.room`, if both rooms are there and have their keys.
    pub fn send_room_key(&self, data: SendRoomKey) -> (res: (SendRoomKeyResult, Vec<Delivery>))
        ensures
            res.0 == if self@.can_send_key(data.room, data.from_room) {
                SendRoomKeyResult::Send
            } else {
                SendRoomKeyResult::RoomDontExist
            },
            self@.can_send_key(data.room, data.from_room) ==> delivers(
                delivery_views(res.1@),
                self@.recipient(data.room, data.id),
                key_text(data.from_room, self@.keys[data.from_room]),
            ),
            !self@.can_send_key(data.room, data.from_room) ==> res.1@.len() == 0,
    {
        broadcast use vstd::std_specs::hash::group_hash_axioms;

        if !self.rooms.contains_key(&data.room) || !self.keys.contains_key(&data.room)
            || !self.rooms.contains_key(&data.from_room) {
            return (SendRoomKeyResult::RoomDontExist, Vec::new());
        }
        let key = match self.keys.get(&data.from_room) {
            Some(key) => *key,
            None => {
                return (SendRoomKeyResult::RoomDontExist, Vec::new());
            },
        };
        let mut text = String::from_str("/send ");
        push_decimal(&mut text, data.from_room);
        text.append(" Some(");
        push_decimal(&mut text, key);
        text.append(")");
        (SendRoomKeyResult::Send, self.send_message_to_id(&data.room, text.as_str(), data.id))
    }
}

impl ChatServer {
    /// Session `msg.id` asks to leave `msg.room` for the room `msg.name`, for
    /// which it shows `msg.key`. It is admitted if that room is there with
    /// that key and has fewer than `ROOM_CAP` members. Then it is taken out
    /// of the room it leaves, which is deleted if nobody is left in it (its
    /// identifier goes back to `queue`), it becomes a member of the other
    /// room, and the members of both rooms are told who they are. A request
    /// that is turned down changes nothing and tells nobody.
    pub fn join(&mut self, queue: &mut Queue, msg: Join) -> (res: (JoinResult, Vec<Delivery>))
        ensures
            res.0 == old(self)@.join_result(msg),
            final(self)@ == old(self)@.join(msg),
            final(queue)@ == if res.0 is Joined && old(self)@.empties(msg.id, msg.room) {
                old(queue)@.release(msg.room)
            } else {
                old(queue)@
            },
            res.0 is Joined ==> announces_both(
                delivery_views(res.1@),
                final(self)@,
                msg.room,
                msg.name,
            ),
            !(res.0 is Joined) ==> res.1@.len() == 0,
            old(self)@.wf() ==> final(self)@.wf(),
    {
        broadcast use vstd::std_specs::hash::group_hash_axioms;

        let Join { id, name, key, room } = msg;
        match self.keys.get(&name) {
            Some(room_key) => {
                if *room_key != key {
                    return (JoinResult::BadKey, Vec::new());
                }
            },
            None => {
                return (JoinResult::RoomDontExist, Vec::new());
            },
        }
        match self.rooms.get(&name) {
            Some(members) => {
                if members.len() >= ROOM_CAP {
                    return (JoinResult::FullRoom, Vec::new());
                }
            },
            None => {
                return (JoinResult::RoomDontExist, Vec::new());
            },
        }
        self.leave_room(queue, id, room);
        self.enter_room(id, name);
        proof {
            if old(self)@.wf() {
                lemma_leave_wf(old(self)@, id, room);
                lemma_enter_wf(old(self)@.leave(id, room), id, name);
            }
        }
        let mut out = self.announce(room);
        let mut more = self.announce(name);
        let ghost first = delivery_views(out@);
        let ghost second = delivery_views(more@);
        out.append(&mut more);
        proof {
            let all = delivery_views(out@);
            assert(all.take(first.len() as int) =~= first);
            assert(all.skip(first.len() as int) =~= second);
        }
        (JoinResult::Joined(name), out)
    }
}

/// A session that registers in a room finds the room's key there, unless
/// the room was there before without one. With that key any session is
/// admitted to the room as long as the room is not full, and is a member of
/// it afterwards; with another key it is turned down as `BadKey`, and
/// nothing changes.
pub proof fn lemma_connect_then_join(v: RegistryView, room: usize, id: usize, key: usize, j: Join)
    requires
        v.wf(),
        v.rooms.contains_key(room) ==> v.keys.contains_key(room),
        j.name == room,
    ensures
        v.connect(room, id, key).wf(),
        v.connect(room, id, key).key(room) is Some,
        v.connect(room, id, key).members(room).contains(id),
        !v.rooms.contains_key(room) ==> v.connect(room, id, key).key(room) == Some(key),
        ({
            let w = v.connect(room, id, key);
            &&& Some(j.key) == w.key(room) && w.members(room).len() < ROOM_CAP ==> {
                &&& w.join_result(j) == JoinResult::Joined(room)
                &&& w.join(j).members(room) == w.leave(j.id, j.room).members(room).insert(j.id)
                &&& w.join(j).members(room).contains(j.id)
            }
            &&& Some(j.key) != w.key(room) ==> {
                &&& w.join_result(j) == JoinResult::BadKey
                &&& w.join(j) == w
            }
        }),
{
    lemma_enter_wf(v, id, room);
}

/// When the last member of a room disconnects, the room goes: it has no key
/// and no members afterwards, and its identifier goes back to the pool.
pub proof fn lemma_last_disconnect_removes_room(v: RegistryView, id: usize, room: usize)
    requires
        v.sessions.contains(id),
        v.rooms.contains_key(room),
        v.rooms[room] == set![id],
    ensures
        !v.disconnect(id, room).rooms.contains_key(room),
        v.disconnect(id, room).key(room) is None,
        v.disconnect(id, room).members(room) == Set::<usize>::empty(),
        !v.disconnect(id, room).sessions.contains(id),
        v.disconnect_frees(id, room),
{
}

/// A room that has `ROOM_CAP` members or more admits nobody: whoever shows
/// the right key is turned down as `FullRoom`, and nothing changes.
pub proof fn lemma_full_room_admits_nobody(v: RegistryView, j: Join)
    requires
        v.key(j.name) == Some(j.key),
        v.rooms.contains_key(j.name),
        v.rooms[j.name].len() >= ROOM_CAP,
    ensures
        v.join_result(j) == JoinResult::FullRoom,
        v.join(j) == v,
        v.join(j).members(j.name) == v.members(j.name),
{
}

/// A text for one session of a room reaches that session alone, once, and
/// only if it is a member of the room and registered; otherwise it reaches
/// nobody.
pub proof fn lemma_direct_reaches_target_alone(
    out: Seq<DeliveryView>,
    v: RegistryView,
    room: usize,
    id_to: usize,
    text: Seq<char>,
)
    requires
        delivers(out, v.recipient(room, id_to), text),
    ensures
        forall|i: int|
            0 <= i < out.len() ==> (#[trigger] out[i]).to == id_to && out[i].text == text,
        v.members(room).contains(id_to) && v.sessions.contains(id_to) ==> out.len() == 1,
        !v.members(room).contains(id_to) ==> out.len() == 0,
        !v.sessions.contains(id_to) ==> out.len() == 0,
{
    let to = v.recipient(room, id_to);
    assert forall|i: int| 0 <= i < out.len() implies (#[trigger] out[i]).to == id_to by {
        assert(to.contains(out[i].to));
    }
    if out.len() > 1 {
        assert(out[0].to != out[1].to);
    }
    if out.len() > 0 {
        assert(to.contains(out[0].to));
    }
    if v.members(room).contains(id_to) && v.sessions.contains(id_to) {
        assert(to.contains(id_to));
    }
}

/// What a session says to its room reaches every other member of the room
/// that is registered, once, and never the session itself.
pub proof fn lemma_broadcast_skips_sender(
    out: Seq<DeliveryView>,
    v: RegistryView,
    room: usize,
    id: usize,
    text: Seq<char>,
)
    requires
        delivers(out, v.audience(room, Some(id)), text),
    ensures
        forall|i: int| 0 <= i < out.len() ==> (#[trigger] out[i]).to != id,
        forall|i: int|
            0 <= i < out.len() ==> v.members(room).contains((#[trigger] out[i]).to) && out[i].text
                == text,
        forall|m: usize|
            v.members(room).contains(m) && v.sessions.contains(m) && m != id ==> exists|i: int|
                0 <= i < out.len() && (#[trigger] out[i]).to == m && out[i].text == text,
{
    let to = v.audience(room, Some(id));
    assert forall|i: int| 0 <= i < out.len() implies (#[trigger] out[i]).to != id
        && v.members(room).contains(out[i].to) by {
        assert(to.contains(out[i].to));
    }
    assert forall|m: usize|
        v.members(room).contains(m) && v.sessions.contains(m) && m != id implies exists|i: int|
        0 <= i < out.len() && (#[trigger] out[i]).to == m && out[i].text == text by {
        assert(to.contains(m));
    }
}

/// As long as no identifier that the pool can hand out names a room, a
/// connection that is admitted gets an identifier under which there is no
/// room yet: registering it makes the room, with the key given, and the pool
/// and the rooms stay apart.
pub proof fn lemma_admission_makes_new_room(q: PoolView, v: RegistryView, id: usize, key: usize)
    requires
        q.apart(v.rooms.dom()),
        !q.exhausted(),
    ensures
        !v.rooms.contains_key(q.next()),
        v.connect(q.next(), id, key).key(q.next()) == Some(key),
        v.connect(q.next(), id, key).members(q.next()) == set![id],
        q.reserve().apart(v.connect(q.next(), id, key).rooms.dom()),
{
    lemma_reserve_keeps_apart(q, v.rooms.dom());
    assert(v.connect(q.next(), id, key).rooms.dom() =~= v.rooms.dom().insert(q.next()));
    assert(v.connect(q.next(), id, key).members(q.next()) =~= set![id]);
}

/// As long as no identifier that the pool can hand out names a room, this
/// stays so when a session disconnects, in whatever order rooms are left.
pub proof fn lemma_disconnect_keeps_pool_apart(
    q: PoolView,
    v: RegistryView,
    id: usize,
    room: usize,
)
    requires
        q.apart(v.rooms.dom()),
    ensures
        v.disconnect_frees(id, room) ==> q.release(room).apart(v.disconnect(id, room).rooms.dom()),
        !v.disconnect_frees(id, room) ==> q.apart(v.disconnect(id, room).rooms.dom()),
{
    let after = v.disconnect(id, room).rooms.dom();
    if v.disconnect_frees(id, room) {
        assert(after =~= v.rooms.dom().remove(room));
        if q.cursor > 0 {
            lemma_refund_keeps_apart(q, v.rooms.dom(), room);
        }
    } else {
        assert(after =~= v.rooms.dom());
    }
}

/// As long as no identifier that the pool can hand out names a room, this
/// stays so when a session joins another room. The one exception is the
/// only member of a room that joins its own room: the room is deleted, its
/// identifier goes back to the pool, and the room is made again.
pub proof fn lemma_join_keeps_pool_apart(q: PoolView, v: RegistryView, j: Join)
    requires
        q.apart(v.rooms.dom()),
        !(j.name == j.room && v.empties(j.id, j.room)),
    ensures
        v.join_result(j) is Joined && v.empties(j.id, j.room) ==> q.release(j.room).apart(
            v.join(j).rooms.dom(),
        ),
        !(v.join_result(j) is Joined && v.empties(j.id, j.room)) ==> q.apart(
            v.join(j).rooms.dom(),
        ),
{
    let after = v.join(j).rooms.dom();
    if v.join_result(j) is Joined {
        if v.empties(j.id, j.room) {
            assert(after =~= v.rooms.dom().remove(j.room));
            if q.cursor > 0 {
                lemma_refund_keeps_apart(q, v.rooms.dom(), j.room);
            }
        } else {
            assert(after =~= v.rooms.dom());
        }
    }
}

} // verus!
