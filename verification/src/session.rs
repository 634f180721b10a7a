//! One connection's protocol: what it asks of the registry for each frame
//! that arrives, what it tells its peer for each reply, and when it gives up.

use crate::server::{
    ClientMessage, ClientMessageView, Connect, Direct, DirectResult, DirectView, Disconnect,
    Invite, InviteResult, Join, JoinResult, Members, Room, SendRoomKey, SendRoomKeyResult,
};
use crate::text::{
    decimal, first_char, head, list_text, parse_usize, parsed, push_decimal, push_list,
    same_text, split_once, tail, to_decimal, trim, trimmed,
};
use vstd::prelude::*;
use vstd::string::StringExecFns;

verus! {

/// How often heartbeat pings are sent, in milliseconds.
pub const HEARTBEAT_INTERVAL: u64 = 5000;

/// How long before lack of client response causes a timeout, in milliseconds.
pub const CLIENT_TIMEOUT: u64 = 10000;

/// Where a connection stands in its life.
#[derive(Debug, Clone, Copy, PartialEq, Eq)]
pub enum Phase {
    /// The registry has not answered the registration yet.
    Connecting,
    /// Registered: frames are served.
    Active,
    /// The registry was told that the connection goes; a stop is under way.
    Closing,
    /// Stopped.
    Closed,
}

/// The transport could not make a frame of what arrived.
#[derive(Debug, Clone, Copy, PartialEq, Eq)]
pub struct ProtocolError;

/// The registry could not be reached, or gave no answer.
#[derive(Debug, Clone, Copy, PartialEq, Eq)]
pub struct MailboxError;

/// Why a peer closes the connection.
#[derive(Debug, Clone, PartialEq, Eq)]
pub struct CloseReason {
    pub code: u16,
    pub description: Option<String>,
}

pub struct CloseReasonView {
    pub code: u16,
    pub description: Option<Seq<char>>,
}

impl View for CloseReason {
    type V = CloseReasonView;

    open spec fn view(&self) -> CloseReasonView {
        CloseReasonView {
            code: self.code,
            description: match self.description {
                Some(d) => Some(d@),
                None => None,
            },
        }
    }
}

/// The view of a close reason that may be missing.
pub open spec fn reason_view(reason: Option<CloseReason>) -> Option<CloseReasonView> {
    match reason {
        Some(r) => Some(r@),
        None => None,
    }
}

/// A frame as the transport hands it over.
#[derive(Debug, Clone, PartialEq, Eq)]
pub enum Frame {
    Text(String),
    Binary(Vec<u8>),
    Continuation,
    Ping(Vec<u8>),
    Pong(Vec<u8>),
    Close(Option<CloseReason>),
    Nop,
}

pub enum FrameView {
    Text(Seq<char>),
    Binary(Seq<u8>),
    Continuation,
    Ping(Seq<u8>),
    Pong(Seq<u8>),
    Close(Option<CloseReasonView>),
    Nop,
}

impl View for Frame {
    type V = FrameView;

    open spec fn view(&self) -> FrameView {
        match *self {
            Frame::Text(t) => FrameView::Text(t@),
            Frame::Binary(b) => FrameView::Binary(b@),
            Frame::Continuation => FrameView::Continuation,
            Frame::Ping(b) => FrameView::Ping(b@),
            Frame::Pong(b) => FrameView::Pong(b@),
            Frame::Close(r) => FrameView::Close(reason_view(r)),
            Frame::Nop => FrameView::Nop,
        }
    }
}

/// A request to the registry whose reply the connection waits for.
#[derive(Debug, Clone, PartialEq, Eq)]
pub enum Request {
    ListRooms,
    Invite(Invite),
    SendRoomKey(SendRoomKey),
    Join(Join),
    Room(Room),
    Members(Members),
    Direct(Direct),
}

pub enum RequestView {
    ListRooms,
    Invite(Invite),
    SendRoomKey(SendRoomKey),
    Join(Join),
    Room(Room),
    Members(Members),
    Direct(DirectView),
}

impl View for Request {
    type V = RequestView;

    open spec fn view(&self) -> RequestView {
        match *self {
            Request::ListRooms => RequestView::ListRooms,
            Request::Invite(x) => RequestView::Invite(x),
            Request::SendRoomKey(x) => RequestView::SendRoomKey(x),
            Request::Join(x) => RequestView::Join(x),
            Request::Room(x) => RequestView::Room(x),
            Request::Members(x) => RequestView::Members(x),
            Request::Direct(x) => RequestView::Direct(x@),
        }
    }
}

/// One thing that the connection's owner is to do, in the order given.
#[derive(Debug, Clone, PartialEq, Eq)]
pub enum Effect {
    /// Send a liveness probe to the peer.
    Ping,
    /// Answer the peer's liveness probe with its payload.
    Pong(Vec<u8>),
    /// Send a text to the peer.
    Text(String),
    /// Send a request to the registry and hand its reply back before any
    /// other frame is served.
    Ask(Request),
    /// Send a broadcast to the registry; there is no reply.
    Tell(ClientMessage),
    /// Tell the registry that the connection goes; there is no reply.
    Leave(Disconnect),
    /// Answer the peer's close.
    Close(Option<CloseReason>),
    /// Stop the connection.
    Stop,
}

pub enum EffectView {
    Ping,
    Pong(Seq<u8>),
    Text(Seq<char>),
    Ask(RequestView),
    Tell(ClientMessageView),
    Leave(Disconnect),
    Close(Option<CloseReasonView>),
    Stop,
}

impl View for Effect {
    type V = EffectView;

    open spec fn view(&self) -> EffectView {
        match *self {
            Effect::Ping => EffectView::Ping,
            Effect::Pong(b) => EffectView::Pong(b@),
            Effect::Text(t) => EffectView::Text(t@),
            Effect::Ask(r) => EffectView::Ask(r@),
            Effect::Tell(m) => EffectView::Tell(m@),
            Effect::Leave(d) => EffectView::Leave(d),
            Effect::Close(r) => EffectView::Close(reason_view(r)),
            Effect::Stop => EffectView::Stop,
        }
    }
}

/// The views of a sequence of effects, one for one.
pub open spec fn views(effects: Seq<Effect>) -> Seq<EffectView> {
    effects.map_values(|e: Effect| e@)
}

/// The state of one connection.
#[derive(Debug, Clone, Copy, PartialEq, Eq)]
pub struct WsChatSession {
    /// unique session id
    pub id: usize,
    /// When the peer was last seen alive, in milliseconds on the owner's
    /// clock. The peer must show itself at least once per `CLIENT_TIMEOUT`,
    /// otherwise the connection is dropped.
    pub hb: u64,
    /// joined room
    pub room: usize,
    pub phase: Phase,
}

/// How the text `s` looks in a message that quotes it: between double
/// quotes, with the escapes of Rust's `Debug` for strings.
pub uninterp spec fn debug_text(s: Seq<char>) -> Seq<char>;

/// `s` as `format!("{:?}", s)` writes it, that is as the standard library's
/// `Debug` for `str` does. The contract only gives the result the name
/// `debug_text`: the same text is always quoted the same way.
#[verifier::external_body]
fn debug_quoted(s: &str) -> (r: String)
    ensures
        r@ == debug_text(s@),
{
    format!("{:?}", s)
}

/// The number behind the first space of `a`, if a number stands there.
pub open spec fn second_number(a: Seq<char>) -> Option<usize> {
    match tail(a) {
        Some(t) => parsed(t),
        None => None,
    }
}

/// A text for the peer.
fn say(s: &str) -> (e: Effect)
    ensures
        e@ == EffectView::Text(s@),
{
    Effect::Text(String::from_str(s))
}

/// The number behind the first space of `a`, if a number stands there.
fn second(a: &str) -> (r: Option<usize>)
    ensures
        r == second_number(a@),
{
    match split_once(a).1 {
        Some(t) => parse_usize(t),
        None => None,
    }
}

/// The reply to a command that the protocol does not know. `quoted` is the
/// whole line as it is to be shown.
pub fn unknown_command(quoted: &str) -> (e: Effect)
    ensures
        e@ == EffectView::Text("!!! unknown command: "@ + quoted@),
{
    let mut t = String::from_str("!!! unknown command: ");
    t.append(quoted);
    Effect::Text(t)
}

impl WsChatSession {
    /// `/invite <room>`: invite the members of another room.
    pub open spec fn invite_effect(self, arg: Option<Seq<char>>) -> EffectView {
        match arg {
            None => EffectView::Text("!!! syntax error"@),
            Some(a) => match parsed(a) {
                Some(room) => EffectView::Ask(
                    RequestView::Invite(Invite { id: self.id, room, from_room: self.room }),
                ),
                None => EffectView::Text("!!! room name required "@),
            },
        }
    }

    /// `/send <room> <session>`: hand this room's key to a session of
    /// another room.
    pub open spec fn send_effect(self, arg: Option<Seq<char>>) -> EffectView {
        match arg {
            None => EffectView::Text("!!! room name and key is required"@),
            Some(a) => match parsed(head(a)) {
                None => EffectView::Text("!!! room name must be integer"@),
                Some(room) => match second_number(a) {
                    None => EffectView::Text("!!! user id must be integer"@),
                    Some(id) => EffectView::Ask(
                        RequestView::SendRoomKey(SendRoomKey { room, from_room: self.room, id }),
                    ),
                },
            },
        }
    }

    /// `/join <room> <key>`: leave this room for another.
    pub open spec fn join_effect(self, arg: Option<Seq<char>>) -> EffectView {
        match arg {
            None => EffectView::Text("!!! room name and key is required"@),
            Some(a) => match parsed(head(a)) {
                None => EffectView::Text("!!! room name must be integer"@),
                Some(name) => match second_number(a) {
                    None => EffectView::Text("!!! room key must be integer"@),
                    Some(key) => EffectView::Ask(
                        RequestView::Join(Join { id: self.id, name, key, room: self.room }),
                    ),
                },
            },
        }
    }

    /// `/room`: this room's number and key.
    pub open spec fn room_effect(self, arg: Option<Seq<char>>) -> EffectView {
        match arg {
            Some(_) => EffectView::Text("!!! syntax error"@),
            None => EffectView::Ask(RequestView::Room(Room { name: self.room })),
        }
    }

    /// `/id`: this session's number.
    pub open spec fn id_effect(self, arg: Option<Seq<char>>) -> EffectView {
        match arg {
            Some(_) => EffectView::Text("!!! syntax error"@),
            None => EffectView::Text("/id "@ + decimal(self.id as nat)),
        }
    }

    /// `/members`: who is in this room.
    pub open spec fn members_effect(self, arg: Option<Seq<char>>) -> EffectView {
        match arg {
            Some(_) => EffectView::Text("!!! syntax error"@),
            None => EffectView::Ask(RequestView::Members(Members { room: self.room })),
        }
    }

    /// `/direct_message <session> <text>`: a text for one member of this
    /// room. The text is all that follows the second space, further spaces
    /// included.
    pub open spec fn direct_effect(self, arg: Option<Seq<char>>) -> EffectView {
        match arg {
            None => EffectView::Text("!!! syntax error"@),
            Some(a) => match parsed(head(a)) {
                None => EffectView::Text("!!! user id must be integer"@),
                Some(id_to) => match tail(a) {
                    None => EffectView::Text("!!! offer must be string"@),
                    Some(mess) => EffectView::Ask(
                        RequestView::Direct(
                            DirectView { room: self.room, id_to, id_from: self.id, mess },
                        ),
                    ),
                },
            },
        }
    }

    /// What the command line `m` leads to. The command is what stands before
    /// the first space, its argument text all that stands behind it.
    pub open spec fn command_effect(self, m: Seq<char>) -> EffectView {
        let cmd = head(m);
        let arg = tail(m);
        if cmd == "/list"@ {
            EffectView::Ask(RequestView::ListRooms)
        } else if cmd == "/invite"@ {
            self.invite_effect(arg)
        } else if cmd == "/send"@ {
            self.send_effect(arg)
        } else if cmd == "/join"@ {
            self.join_effect(arg)
        } else if cmd == "/room"@ {
            self.room_effect(arg)
        } else if cmd == "/id"@ {
            self.id_effect(arg)
        } else if cmd == "/members"@ {
            self.members_effect(arg)
        } else if cmd == "/direct_message"@ {
            self.direct_effect(arg)
        } else {
            EffectView::Text("!!! unknown command: "@ + debug_text(m))
        }
    }

    /// What a text frame leads to: trimmed, it is a command if it begins with
    /// `/`, and a broadcast to the room otherwise.
    pub open spec fn text_effect(self, text: Seq<char>) -> EffectView {
        let m = trimmed(text);
        if m.len() > 0 && m[0] == '/' {
            self.command_effect(m)
        } else {
            EffectView::Tell(ClientMessageView { id: self.id, msg: m, room: self.room })
        }
    }

    fn invite_command(&self, arg: Option<&str>) -> (e: Effect)
        ensures
            e@ == self.invite_effect(
                match arg {
                    Some(a) => Some(a@),
                    None => None,
                },
            ),
    {
        match arg {
            None => say("!!! syntax error"),
            Some(a) => match parse_usize(a) {
                Some(room) => Effect::Ask(
                    Request::Invite(Invite { id: self.id, room, from_room: self.room }),
                ),
                None => say("!!! room name required "),
            },
        }
    }

    fn send_command(&self, arg: Option<&str>) -> (e: Effect)
        ensures
            e@ == self.send_effect(
                match arg {
                    Some(a) => Some(a@),
                    None => None,
                },
            ),
    {
        match arg {
            None => say("!!! room name and key is required"),
            Some(a) => match parse_usize(split_once(a).0) {
                None => say("!!! room name must be integer"),
                Some(room) => match second(a) {
                    None => say("!!! user id must be integer"),
                    Some(id) => Effect::Ask(
                        Request::SendRoomKey(SendRoomKey { room, from_room: self.room, id }),
                    ),
                },
            },
        }
    }

    fn join_command(&self, arg: Option<&str>) -> (e: Effect)
        ensures
            e@ == self.join_effect(
                match arg {
                    Some(a) => Some(a@),
                    None => None,
                },
            ),
    {
        match arg {
            None => say("!!! room name and key is required"),
            Some(a) => match parse_usize(split_once(a).0) {
                None => say("!!! room name must be integer"),
                Some(name) => match second(a) {
                    None => say("!!! room key must be integer"),
                    Some(key) => Effect::Ask(
                        Request::Join(Join { id: self.id, name, key, room: self.room }),
                    ),
                },
            },
        }
    }

    fn direct_command(&self, arg: Option<&str>) -> (e: Effect)
        ensures
            e@ == self.direct_effect(
                match arg {
                    Some(a) => Some(a@),
                    None => None,
                },
            ),
    {
        match arg {
            None => say("!!! syntax error"),
            Some(a) => {
                let (first, rest) = split_once(a);
                match parse_usize(first) {
                    None => say("!!! user id must be integer"),
                    Some(id_to) => match rest {
                        None => say("!!! offer must be string"),
                        Some(mess) => Effect::Ask(
                            Request::Direct(
                                Direct {
                                    room: self.room,
                                    id_to,
                                    id_from: self.id,
                                    mess: String::from_str(mess),
                                },
                            ),
                        ),
                    },
                }
            },
        }
    }

    /// Serves the command line `m`: the request that it stands for, or the
    /// reply that says what is wrong with it.
    pub fn command(&self, m: &str) -> (e: Effect)
        ensures
            e@ == self.command_effect(m@),
    {
        let (cmd, arg) = split_once(m);
        if same_text(cmd, "/list") {
            Effect::Ask(Request::ListRooms)
        } else if same_text(cmd, "/invite") {
            self.invite_command(arg)
        } else if same_text(cmd, "/send") {
            self.send_command(arg)
        } else if same_text(cmd, "/join") {
            self.join_command(arg)
        } else if same_text(cmd, "/room") {
            match arg {
                Some(_) => say("!!! syntax error"),
                None => Effect::Ask(Request::Room(Room { name: self.room })),
            }
        } else if same_text(cmd, "/id") {
            match arg {
                Some(_) => say("!!! syntax error"),
                None => {
                    let mut t = String::from_str("/id ");
                    push_decimal(&mut t, self.id);
                    Effect::Text(t)
                },
            }
        } else if same_text(cmd, "/members") {
            match arg {
                Some(_) => say("!!! syntax error"),
                None => Effect::Ask(Request::Members(Members { room: self.room })),
            }
        } else if same_text(cmd, "/direct_message") {
            self.direct_command(arg)
        } else {
            unknown_command(debug_quoted(m).as_str())
        }
    }

    /// Serves a text frame: a command, or a broadcast to the room.
    pub fn text(&self, text: &str) -> (e: Effect)
        ensures
            e@ == self.text_effect(text@),
    {
        let m = trim(text);
        match first_char(m) {
            Some(c) if c == '/' => self.command(m),
            _ => Effect::Tell(
                ClientMessage { id: self.id, msg: String::from_str(m), room: self.room },
            ),
        }
    }
}

/// The view of what the transport hands over.
pub open spec fn incoming(msg: Result<Frame, ProtocolError>) -> Result<FrameView, ProtocolError> {
    match msg {
        Ok(frame) => Ok(frame@),
        Err(e) => Err(e),
    }
}

impl WsChatSession {
    /// The session of a connection that was admitted to `room` at `now`.
    pub fn new(room: usize, now: u64) -> (s: WsChatSession)
        ensures
            s == (WsChatSession { id: 0, hb: now, room, phase: Phase::Connecting }),
    {
        WsChatSession { id: 0, hb: now, room, phase: Phase::Connecting }
    }

    /// The notice that tells the registry that this connection goes.
    pub open spec fn goodbye(self) -> Disconnect {
        Disconnect { id: self.id, room: self.room }
    }

    /// This session once it has told the registry that it goes.
    pub open spec fn closing(self) -> WsChatSession {
        WsChatSession { phase: Phase::Closing, ..self }
    }

    /// Giving up: tell the registry, then stop.
    pub open spec fn farewell(self) -> Seq<EffectView> {
        seq![EffectView::Leave(self.goodbye()), EffectView::Stop]
    }

    /// Whether the peer has been silent for longer than `CLIENT_TIMEOUT`.
    pub open spec fn timed_out(self, now: u64) -> bool {
        now - self.hb > CLIENT_TIMEOUT
    }

    /// The session after a frame, or a transport error, that came at `now`.
    /// Outside the active phase nothing is served.
    pub open spec fn frame_state(
        self,
        msg: Result<FrameView, ProtocolError>,
        now: u64,
    ) -> WsChatSession {
        if self.phase != Phase::Active {
            self
        } else {
            match msg {
                Ok(FrameView::Ping(_)) | Ok(FrameView::Pong(_)) => WsChatSession {
                    hb: now,
                    ..self
                },
                Ok(FrameView::Text(_)) | Ok(FrameView::Nop) => self,
                Ok(FrameView::Binary(_)) | Ok(FrameView::Continuation) | Ok(FrameView::Close(_))
                | Err(_) => self.closing(),
            }
        }
    }

    /// What a frame, or a transport error, leads to.
    pub open spec fn frame_effects(
        self,
        msg: Result<FrameView, ProtocolError>,
    ) -> Seq<EffectView> {
        if self.phase != Phase::Active {
            seq![]
        } else {
            match msg {
                Ok(FrameView::Ping(payload)) => seq![EffectView::Pong(payload)],
                Ok(FrameView::Pong(_)) | Ok(FrameView::Nop) => seq![],
                Ok(FrameView::Text(t)) => seq![self.text_effect(t)],
                Ok(FrameView::Close(reason)) => seq![EffectView::Close(reason)]
                    + self.farewell(),
                Ok(FrameView::Binary(_)) | Ok(FrameView::Continuation) | Err(_) => self.farewell(),
            }
        }
    }

    /// The session after a heartbeat tick at `now`.
    pub open spec fn tick_state(self, now: u64) -> WsChatSession {
        if self.phase == Phase::Active && self.timed_out(now) {
            self.closing()
        } else {
            self
        }
    }

    /// What a heartbeat tick at `now` leads to: a probe, or giving up on a
    /// peer that has been silent for too long.
    pub open spec fn tick_effects(self, now: u64) -> Seq<EffectView> {
        if self.phase != Phase::Active {
            seq![]
        } else if self.timed_out(now) {
            self.farewell()
        } else {
            seq![EffectView::Ping]
        }
    }

    /// Tell the registry, then stop; the registry is told here and nowhere
    /// else before the stop.
    fn leave(&mut self) -> (effects: Vec<Effect>)
        ensures
            *final(self) == old(self).closing(),
            views(effects@) == old(self).farewell(),
    {
        let mut effects: Vec<Effect> = Vec::new();
        effects.push(Effect::Leave(Disconnect { id: self.id, room: self.room }));
        effects.push(Effect::Stop);
        self.phase = Phase::Closing;
        effects
    }

    /// The registration that a new connection sends to the registry.
    pub fn started(&self) -> (c: Connect)
        ensures
            c == (Connect { room: self.room }),
    {
        Connect { room: self.room }
    }

    /// The registry's answer to the registration: with a session id the
    /// connection becomes active; without one it gives up. Only a connecting
    /// session takes such an answer.
    pub fn connected(&mut self, res: Result<usize, MailboxError>) -> (effects: Vec<Effect>)
        ensures
            *final(self) == if old(self).phase != Phase::Connecting {
                *old(self)
            } else {
                match res {
                    Ok(id) => WsChatSession { id, phase: Phase::Active, ..*old(self) },
                    Err(_) => old(self).closing(),
                }
            },
            views(effects@) == if old(self).phase == Phase::Connecting && res is Err {
                old(self).farewell()
            } else {
                seq![]
            },
    {
        if !matches!(self.phase, Phase::Connecting) {
            return Vec::new();
        }
        match res {
            Ok(id) => {
                self.id = id;
                self.phase = Phase::Active;
                Vec::new()
            },
            Err(_) => self.leave(),
        }
    }

    /// A heartbeat tick at `now`: probe the peer, or give up if it has been
    /// silent for longer than `CLIENT_TIMEOUT`.
    pub fn hb(&mut self, now: u64) -> (effects: Vec<Effect>)
        ensures
            *final(self) == old(self).tick_state(now),
            views(effects@) == old(self).tick_effects(now),
    {
        if !matches!(self.phase, Phase::Active) {
            return Vec::new();
        }
        if now > self.hb && now - self.hb > CLIENT_TIMEOUT {
            return self.leave();
        }
        let mut effects: Vec<Effect> = Vec::new();
        effects.push(Effect::Ping);
        effects
    }

    /// The connection stops: the registry is told unless it was told
    /// already.
    pub fn stopping(&mut self) -> (effects: Vec<Effect>)
        ensures
            *final(self) == (WsChatSession { phase: Phase::Closed, ..*old(self) }),
            views(effects@) == if old(self).phase == Phase::Connecting || old(self).phase
                == Phase::Active {
                seq![EffectView::Leave(old(self).goodbye())]
            } else {
                seq![]
            },
    {
        let mut effects: Vec<Effect> = Vec::new();
        if matches!(self.phase, Phase::Connecting | Phase::Active) {
            effects.push(Effect::Leave(Disconnect { id: self.id, room: self.room }));
        }
        self.phase = Phase::Closed;
        effects
    }

    /// Serves what the transport hands over at `now`: a frame, or its
    /// failure to make one.
    pub fn handle(&mut self, msg: Result<Frame, ProtocolError>, now: u64) -> (effects: Vec<
        Effect,
    >)
        ensures
            *final(self) == old(self).frame_state(incoming(msg), now),
            views(effects@) == old(self).frame_effects(incoming(msg)),
    {
        let mut effects: Vec<Effect> = Vec::new();
        if !matches!(self.phase, Phase::Active) {
            return effects;
        }
        let msg = match msg {
            Err(_) => {
                return self.leave();
            },
            Ok(msg) => msg,
        };
        match msg {
            Frame::Ping(payload) => {
                self.hb = now;
                effects.push(Effect::Pong(payload));
            },
            Frame::Pong(_) => {
                self.hb = now;
            },
            Frame::Text(text) => {
                effects.push(self.text(text.as_str()));
            },
            Frame::Close(reason) => {
                effects.push(Effect::Close(reason));
                let mut rest = self.leave();
                effects.append(&mut rest);
            },
            Frame::Binary(_) | Frame::Continuation => {
                return self.leave();
            },
            Frame::Nop => {},
        }
        effects
    }
}

/// Each room number in a text of its own.
pub open spec fn room_lines(rooms: Seq<usize>) -> Seq<EffectView> {
    Seq::new(rooms.len(), |i: int| EffectView::Text(decimal(rooms[i] as nat)))
}

/// One text for the peer.
pub open spec fn one_text(t: Seq<char>) -> Seq<EffectView> {
    seq![EffectView::Text(t)]
}

impl WsChatSession {
    /// The session after a reply: a registry that gave none is fatal for an
    /// active connection, and nothing else changes.
    pub open spec fn reply_state(self, failed: bool) -> WsChatSession {
        if self.phase == Phase::Active && failed {
            self.closing()
        } else {
            self
        }
    }

    /// What a missing reply leads to on an active connection: the connection
    /// gives up, after `said` if the peer is told.
    pub open spec fn failure(self, said: Option<Seq<char>>) -> Seq<EffectView> {
        match said {
            Some(t) => one_text(t) + self.farewell(),
            None => self.farewell(),
        }
    }

    /// The peer is told that the registry gave no reply; then the connection
    /// gives up.
    fn fail(&mut self) -> (effects: Vec<Effect>)
        ensures
            *final(self) == old(self).closing(),
            views(effects@) == old(self).failure(Some("!!! somethig go wrong"@)),
    {
        let mut effects: Vec<Effect> = Vec::new();
        effects.push(say("!!! somethig go wrong"));
        let mut rest = self.leave();
        effects.append(&mut rest);
        effects
    }

    /// The one text `t` for the peer.
    fn tell_peer(t: String) -> (effects: Vec<Effect>)
        ensures
            views(effects@) == one_text(t@),
    {
        let mut effects: Vec<Effect> = Vec::new();
        effects.push(Effect::Text(t));
        effects
    }

    /// The reply to `/list`: each room number in a text of its own, in the
    /// order given.
    pub open spec fn rooms_effects(self, res: Result<Seq<usize>, MailboxError>) -> Seq<
        EffectView,
    > {
        if self.phase != Phase::Active {
            seq![]
        } else {
            match res {
                Ok(rooms) => room_lines(rooms),
                Err(_) => self.failure(None),
            }
        }
    }

    /// Serves the registry's reply to `/list`.
    pub fn on_rooms(&mut self, res: Result<Vec<usize>, MailboxError>) -> (effects: Vec<Effect>)
        ensures
            *final(self) == old(self).reply_state(res is Err),
            views(effects@) == old(self).rooms_effects(
                match res {
                    Ok(rooms) => Ok(rooms@),
                    Err(e) => Err(e),
                },
            ),
    {
        if !matches!(self.phase, Phase::Active) {
            return Vec::new();
        }
        match res {
            Ok(rooms) => {
                let mut effects: Vec<Effect> = Vec::new();
                let mut i: usize = 0;
                while i < rooms.len()
                    invariant
                        i <= rooms.len(),
                        effects@.len() == i,
                        views(effects@) == room_lines(rooms@.take(i as int)),
                    decreases rooms.len() - i,
                {
                    let ghost before = effects@;
                    effects.push(Effect::Text(to_decimal(rooms[i])));
                    i += 1;
                    assert forall|k: int| 0 <= k < i - 1 implies views(effects@)[k] == room_lines(
                        rooms@.take(i as int),
                    )[k] by {
                        assert(views(effects@)[k] == views(before)[k]);
                    }
                }
                effects
            },
            Err(_) => self.leave(),
        }
    }

    /// The reply to `/invite`.
    pub open spec fn invite_effects(self, res: Result<InviteResult, MailboxError>) -> Seq<
        EffectView,
    > {
        if self.phase != Phase::Active {
            seq![]
        } else {
            match res {
                Ok(InviteResult::Asked) => one_text("/asked"@),
                Ok(InviteResult::RoomDontExist) => one_text("!!! room does not exist"@),
                Err(_) => self.failure(None),
            }
        }
    }

    /// Serves the registry's reply to `/invite`.
    pub fn on_invite(&mut self, res: Result<InviteResult, MailboxError>) -> (effects: Vec<Effect>)
        ensures
            *final(self) == old(self).reply_state(res is Err),
            views(effects@) == old(self).invite_effects(res),
    {
        if !matches!(self.phase, Phase::Active) {
            return Vec::new();
        }
        match res {
            Ok(InviteResult::Asked) => Self::tell_peer(String::from_str("/asked")),
            Ok(InviteResult::RoomDontExist) => Self::tell_peer(
                String::from_str("!!! room does not exist"),
            ),
            Err(_) => self.leave(),
        }
    }

    /// The reply to `/send`.
    pub open spec fn send_room_key_effects(
        self,
        res: Result<SendRoomKeyResult, MailboxError>,
    ) -> Seq<EffectView> {
        if self.phase != Phase::Active {
            seq![]
        } else {
            match res {
                Ok(SendRoomKeyResult::Send) => one_text("/send"@),
                Ok(SendRoomKeyResult::RoomDontExist) => one_text("!!! room does not exist"@),
                Err(_) => self.failure(Some("!!! somethig go wrong"@)),
            }
        }
    }

    /// Serves the registry's reply to `/send`.
    pub fn on_send_room_key(&mut self, res: Result<SendRoomKeyResult, MailboxError>) -> (effects:
        Vec<Effect>)
        ensures
            *final(self) == old(self).reply_state(res is Err),
            views(effects@) == old(self).send_room_key_effects(res),
    {
        if !matches!(self.phase, Phase::Active) {
            return Vec::new();
        }
        match res {
            Ok(SendRoomKeyResult::Send) => Self::tell_peer(String::from_str("/send")),
            Ok(SendRoomKeyResult::RoomDontExist) => Self::tell_peer(
                String::from_str("!!! room does not exist"),
            ),
            Err(_) => self.fail(),
        }
    }

    /// The session after the reply to `/join`: only an admission moves it to
    /// the room it asked for.
    pub open spec fn join_state(self, res: Result<JoinResult, MailboxError>) -> WsChatSession {
        if self.phase != Phase::Active {
            self
        } else {
            match res {
                Ok(JoinResult::Joined(room)) => WsChatSession { room, ..self },
                Ok(_) => self,
                Err(_) => self.closing(),
            }
        }
    }

    /// The reply to `/join`.
    pub open spec fn join_effects(self, res: Result<JoinResult, MailboxError>) -> Seq<EffectView> {
        if self.phase != Phase::Active {
            seq![]
        } else {
            match res {
                Ok(JoinResult::Joined(_)) => one_text("/joined"@),
                Ok(JoinResult::RoomDontExist) => one_text("!!! room does not exist"@),
                Ok(JoinResult::BadKey) => one_text("!!! bad key"@),
                Ok(JoinResult::FullRoom) => one_text("!!! room is full"@),
                Err(_) => self.failure(Some("!!! somethig go wrong"@)),
            }
        }
    }

    /// Serves the registry's reply to `/join`.
    pub fn on_join(&mut self, res: Result<JoinResult, MailboxError>) -> (effects: Vec<Effect>)
        ensures
            *final(self) == old(self).join_state(res),
            views(effects@) == old(self).join_effects(res),
    {
        if !matches!(self.phase, Phase::Active) {
            return Vec::new();
        }
        match res {
            Ok(JoinResult::Joined(room)) => {
                self.room = room;
                Self::tell_peer(String::from_str("/joined"))
            },
            Ok(JoinResult::RoomDontExist) => Self::tell_peer(
                String::from_str("!!! room does not exist"),
            ),
            Ok(JoinResult::BadKey) => Self::tell_peer(String::from_str("!!! bad key")),
            Ok(JoinResult::FullRoom) => Self::tell_peer(String::from_str("!!! room is full")),
            Err(_) => self.fail(),
        }
    }

    /// The reply to `/room`: this room's number and its key.
    pub open spec fn room_effects(self, res: Result<Option<usize>, MailboxError>) -> Seq<
        EffectView,
    > {
        if self.phase != Phase::Active {
            seq![]
        } else {
            match res {
                Ok(Some(key)) => one_text(
                    "/room "@ + decimal(self.room as nat) + " "@ + decimal(key as nat),
                ),
                Ok(None) => one_text("!!! cant get key"@),
                Err(_) => self.failure(Some("!!! somethig go wrong"@)),
            }
        }
    }

    /// Serves the registry's reply to `/room`.
    pub fn on_room(&mut self, res: Result<Option<usize>, MailboxError>) -> (effects: Vec<Effect>)
        ensures
            *final(self) == old(self).reply_state(res is Err),
            views(effects@) == old(self).room_effects(res),
    {
        if !matches!(self.phase, Phase::Active) {
            return Vec::new();
        }
        match res {
            Ok(Some(key)) => {
                let mut t = String::from_str("/room ");
                push_decimal(&mut t, self.room);
                t.append(" ");
                push_decimal(&mut t, key);
                Self::tell_peer(t)
            },
            Ok(None) => Self::tell_peer(String::from_str("!!! cant get key")),
            Err(_) => self.fail(),
        }
    }

    /// The reply to `/members`: the members in the order given.
    pub open spec fn members_effects(self, res: Result<Seq<usize>, MailboxError>) -> Seq<
        EffectView,
    > {
        if self.phase != Phase::Active {
            seq![]
        } else {
            match res {
                Ok(ids) => one_text("/members "@ + list_text(ids)),
                Err(_) => self.failure(Some("!!! somethig go wrong"@)),
            }
        }
    }

    /// Serves the registry's reply to `/members`.
    pub fn on_members(&mut self, res: Result<Vec<usize>, MailboxError>) -> (effects: Vec<Effect>)
        ensures
            *final(self) == old(self).reply_state(res is Err),
            views(effects@) == old(self).members_effects(
                match res {
                    Ok(ids) => Ok(ids@),
                    Err(e) => Err(e),
                },
            ),
    {
        if !matches!(self.phase, Phase::Active) {
            return Vec::new();
        }
        match res {
            Ok(ids) => {
                let mut t = String::from_str("/members ");
                push_list(&mut t, &ids);
                Self::tell_peer(t)
            },
            Err(_) => self.fail(),
        }
    }

    /// The reply to `/direct_message`.
    pub open spec fn direct_effects(self, res: Result<DirectResult, MailboxError>) -> Seq<
        EffectView,
    > {
        if self.phase != Phase::Active {
            seq![]
        } else {
            match res {
                Ok(DirectResult::Send) => one_text("/send"@),
                Ok(DirectResult::IdDontExist) => one_text("!!! id not found"@),
                Err(_) => self.failure(Some("!!! somethig go wrong"@)),
            }
        }
    }

    /// Serves the registry's reply to `/direct_message`.
    pub fn on_direct(&mut self, res: Result<DirectResult, MailboxError>) -> (effects: Vec<Effect>)
        ensures
            *final(self) == old(self).reply_state(res is Err),
            views(effects@) == old(self).direct_effects(res),
    {
        if !matches!(self.phase, Phase::Active) {
            return Vec::new();
        }
        match res {
            Ok(DirectResult::Send) => Self::tell_peer(String::from_str("/send")),
            Ok(DirectResult::IdDontExist) => Self::tell_peer(String::from_str("!!! id not found")),
            Err(_) => self.fail(),
        }
    }
}

/// `effects` tells the registry once that the session `s` goes, and says
/// nothing else to it about going.
pub open spec fn tells_once(effects: Seq<EffectView>, s: WsChatSession) -> bool {
    exists|i: int|
        0 <= i < effects.len() && #[trigger] effects[i] == EffectView::Leave(s.goodbye())
            && forall|j: int| 0 <= j < effects.len() && j != i ==> !(#[trigger] effects[j] is Leave)
}

/// `effects` says nothing to the registry about the session going.
pub open spec fn tells_never(effects: Seq<EffectView>) -> bool {
    forall|i: int| 0 <= i < effects.len() ==> !(#[trigger] effects[i] is Leave)
}

/// An active session that takes a frame or a heartbeat tick tells the
/// registry that it goes exactly when it turns to closing, and then once.
pub proof fn lemma_active_session_leaves_once(
    s: WsChatSession,
    msg: Result<FrameView, ProtocolError>,
    now: u64,
)
    requires
        s.phase == Phase::Active,
    ensures
        s.frame_state(msg, now).phase == Phase::Closing ==> tells_once(s.frame_effects(msg), s),
        s.frame_state(msg, now).phase != Phase::Closing ==> tells_never(s.frame_effects(msg))
            && s.frame_state(msg, now).phase == Phase::Active,
        s.tick_state(now).phase == Phase::Closing ==> tells_once(s.tick_effects(now), s),
        s.tick_state(now).phase != Phase::Closing ==> tells_never(s.tick_effects(now))
            && s.tick_state(now).phase == Phase::Active,
{
    let e = s.frame_effects(msg);
    if s.frame_state(msg, now).phase == Phase::Closing {
        if msg matches Ok(FrameView::Close(_)) {
            assert(e[1] == EffectView::Leave(s.goodbye()));
        } else {
            assert(e[0] == EffectView::Leave(s.goodbye()));
        }
    }
    if s.tick_state(now).phase == Phase::Closing {
        assert(s.tick_effects(now)[0] == EffectView::Leave(s.goodbye()));
    }
}

/// A session that has told the registry that it goes does not tell it
/// again: frames and heartbeat ticks lead to nothing and change nothing.
pub proof fn lemma_closing_session_is_silent(
    s: WsChatSession,
    msg: Result<FrameView, ProtocolError>,
    now: u64,
)
    requires
        s.phase == Phase::Closing || s.phase == Phase::Closed,
    ensures
        s.frame_effects(msg) == Seq::<EffectView>::empty(),
        s.frame_state(msg, now) == s,
        s.tick_effects(now) == Seq::<EffectView>::empty(),
        s.tick_state(now) == s,
{
}

} // verus!
