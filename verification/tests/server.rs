use rendezvous::queue::Queue;
use rendezvous::server::{
    ChatServer, ClientMessage, Connect, Delivery, Direct, DirectResult, Disconnect, Invite,
    InviteResult, Join, JoinResult, ListRooms, Members, Message, Room, SendRoomKey,
    SendRoomKeyResult, ROOM_CAP,
};
use rendezvous::session::{Effect, Phase, Request, WsChatSession};

fn sorted(mut v: Vec<usize>) -> Vec<usize> {
    v.sort();
    v
}

fn to(out: &[Delivery]) -> Vec<usize> {
    sorted(out.iter().map(|d| d.to).collect())
}

fn members(s: &ChatServer, room: usize) -> Vec<usize> {
    sorted(s.members(Members { room }))
}

/// The list in a `/members [..]` text, sorted.
fn announced(d: &Delivery) -> Vec<usize> {
    let t = &d.message.0;
    assert!(t.starts_with("/members [") && t.ends_with(']'), "{:?}", t);
    let inner = &t["/members [".len()..t.len() - 1];
    if inner.is_empty() {
        return Vec::new();
    }
    sorted(inner.split(", ").map(|x| x.parse::<usize>().unwrap()).collect())
}

#[test]
fn new_registry_is_empty() {
    let s = ChatServer::new();
    assert_eq!(s.list_rooms(ListRooms), Vec::<usize>::new());
    assert_eq!(s.members(Members { room: 0 }), Vec::<usize>::new());
    assert_eq!(s.room(Room { name: 0 }), None);
}

#[test]
fn connect_makes_the_room_with_its_key() {
    let mut s = ChatServer::new();
    assert_eq!(s.connect_with(Connect { room: 7 }, 100, 555), 100);
    assert_eq!(s.room(Room { name: 7 }), Some(555));
    assert_eq!(members(&s, 7), vec![100]);
    assert_eq!(s.list_rooms(ListRooms), vec![7]);
    assert_eq!(s.connect_with(Connect { room: 12 }, 200, 666), 200);
    assert_eq!(sorted(s.list_rooms(ListRooms)), vec![7, 12]);
    assert_eq!(s.room(Room { name: 12 }), Some(666));
}

#[test]
fn connect_into_a_room_that_is_there_keeps_its_key() {
    let mut s = ChatServer::new();
    s.connect_with(Connect { room: 7 }, 100, 555);
    s.connect_with(Connect { room: 7 }, 101, 999);
    assert_eq!(s.room(Room { name: 7 }), Some(555));
    assert_eq!(members(&s, 7), vec![100, 101]);
}

#[test]
fn connect_draws_the_session_id() {
    let mut s = ChatServer::new();
    let a = s.connect(Connect { room: 3 });
    assert_eq!(members(&s, 3), vec![a]);
    assert!(s.room(Room { name: 3 }).is_some());
    let b = s.connect(Connect { room: 4 });
    let c = s.connect(Connect { room: 5 });
    assert!(a != b || b != c);
    assert_eq!(members(&s, 4), vec![b]);
}

#[test]
fn join_with_the_key_adds_the_session() {
    let mut q = Queue::new(20);
    let mut s = ChatServer::new();
    s.connect_with(Connect { room: 7 }, 100, 555);
    s.connect_with(Connect { room: 12 }, 200, 666);
    s.connect_with(Connect { room: 12 }, 201, 0);
    let key = s.room(Room { name: 7 }).unwrap();
    let (res, out) = s.join(&mut q, Join { id: 200, name: 7, key, room: 12 });
    assert_eq!(res, JoinResult::Joined(7));
    assert_eq!(members(&s, 7), vec![100, 200]);
    assert_eq!(members(&s, 12), vec![201]);
    assert_eq!(s.room(Room { name: 12 }), Some(666));
    assert_eq!(q.outstanding(), 0);
    assert_eq!(out.len(), 3);
    assert_eq!(out[0].to, 201);
    assert_eq!(out[0].message, Message("/members [201]".to_string()));
    assert_eq!(to(&out[1..]), vec![100, 200]);
    assert_eq!(announced(&out[1]), vec![100, 200]);
    assert_eq!(out[1].message, out[2].message);
}

#[test]
fn join_with_a_wrong_key_changes_nothing() {
    let mut q = Queue::new(20);
    let mut s = ChatServer::new();
    s.connect_with(Connect { room: 7 }, 100, 555);
    s.connect_with(Connect { room: 12 }, 200, 666);
    let (res, out) = s.join(&mut q, Join { id: 200, name: 7, key: 556, room: 12 });
    assert_eq!(res, JoinResult::BadKey);
    assert!(out.is_empty());
    assert_eq!(members(&s, 7), vec![100]);
    assert_eq!(members(&s, 12), vec![200]);
}

#[test]
fn join_into_a_missing_room() {
    let mut q = Queue::new(20);
    let mut s = ChatServer::new();
    s.connect_with(Connect { room: 12 }, 200, 666);
    let (res, out) = s.join(&mut q, Join { id: 200, name: 7, key: 0, room: 12 });
    assert_eq!(res, JoinResult::RoomDontExist);
    assert!(out.is_empty());
    assert_eq!(members(&s, 12), vec![200]);
    assert_eq!(s.list_rooms(ListRooms), vec![12]);
}

#[test]
fn join_into_a_full_room_is_turned_down() {
    assert_eq!(ROOM_CAP, 10);
    let mut q = Queue::new(20);
    let mut s = ChatServer::new();
    for id in 0..9 {
        s.connect_with(Connect { room: 7 }, id, 555);
    }
    s.connect_with(Connect { room: 12 }, 200, 666);
    s.connect_with(Connect { room: 13 }, 300, 777);
    let (res, _) = s.join(&mut q, Join { id: 200, name: 7, key: 555, room: 12 });
    assert_eq!(res, JoinResult::Joined(7));
    assert_eq!(members(&s, 7).len(), 10);
    let (res, out) = s.join(&mut q, Join { id: 300, name: 7, key: 555, room: 13 });
    assert_eq!(res, JoinResult::FullRoom);
    assert!(out.is_empty());
    assert_eq!(members(&s, 7).len(), 10);
    assert!(!members(&s, 7).contains(&300));
    assert_eq!(members(&s, 13), vec![300]);
}

#[test]
fn last_member_takes_the_room_along() {
    let mut q = Queue::new(20);
    for _ in 0..13 {
        q.reserve();
    }
    let mut s = ChatServer::new();
    s.connect_with(Connect { room: 12 }, 200, 666);
    s.connect_with(Connect { room: 12 }, 201, 0);
    let out = s.disconnect(&mut q, Disconnect { id: 200, room: 12 });
    assert_eq!(out, vec![Delivery { to: 201, message: Message("/members [201]".to_string()) }]);
    assert_eq!(q.outstanding(), 13);
    assert_eq!(s.room(Room { name: 12 }), Some(666));
    let out = s.disconnect(&mut q, Disconnect { id: 201, room: 12 });
    assert!(out.is_empty());
    assert_eq!(s.room(Room { name: 12 }), None);
    assert_eq!(s.members(Members { room: 12 }), Vec::<usize>::new());
    assert_eq!(s.list_rooms(ListRooms), Vec::<usize>::new());
    assert_eq!(q.outstanding(), 12);
    assert_eq!(q.reserve().copied(), Some(12));
}

#[test]
fn disconnect_of_a_stranger_changes_nothing() {
    let mut q = Queue::new(20);
    q.reserve();
    let mut s = ChatServer::new();
    s.connect_with(Connect { room: 0 }, 100, 1);
    let out = s.disconnect(&mut q, Disconnect { id: 5, room: 0 });
    assert_eq!(out, vec![Delivery { to: 100, message: Message("/members [100]".to_string()) }]);
    assert_eq!(members(&s, 0), vec![100]);
    assert_eq!(q.outstanding(), 1);
    let out = s.disconnect(&mut q, Disconnect { id: 100, room: 0 });
    assert!(out.is_empty());
    let out = s.disconnect(&mut q, Disconnect { id: 100, room: 0 });
    assert!(out.is_empty());
    assert_eq!(q.outstanding(), 0);
}

#[test]
fn disconnect_with_nothing_handed_out_leaves_the_pool() {
    let mut q = Queue::new(2);
    let mut s = ChatServer::new();
    s.connect_with(Connect { room: 1 }, 100, 1);
    s.disconnect(&mut q, Disconnect { id: 100, room: 1 });
    assert_eq!(q.outstanding(), 0);
    assert_eq!(q.reserve().copied(), Some(0));
    assert_eq!(s.room(Room { name: 1 }), None);
}

#[test]
fn direct_reaches_the_target_alone() {
    let mut s = ChatServer::new();
    s.connect_with(Connect { room: 7 }, 1, 555);
    s.connect_with(Connect { room: 7 }, 2, 0);
    s.connect_with(Connect { room: 7 }, 3, 0);
    s.connect_with(Connect { room: 8 }, 4, 0);
    let (res, out) =
        s.direct(Direct { room: 7, id_to: 2, id_from: 1, mess: "hello".to_string() });
    assert_eq!(res, DirectResult::Send);
    assert_eq!(
        out,
        vec![Delivery { to: 2, message: Message("/direct_message 1 hello".to_string()) }]
    );
    let (res, out) =
        s.direct(Direct { room: 7, id_to: 4, id_from: 1, mess: "hello".to_string() });
    assert_eq!(res, DirectResult::IdDontExist);
    assert!(out.is_empty());
    let (res, out) =
        s.direct(Direct { room: 9, id_to: 2, id_from: 1, mess: "hello".to_string() });
    assert_eq!(res, DirectResult::IdDontExist);
    assert!(out.is_empty());
}

#[test]
fn client_message_reaches_everybody_else() {
    let mut s = ChatServer::new();
    s.connect_with(Connect { room: 7 }, 1, 555);
    s.connect_with(Connect { room: 7 }, 2, 0);
    s.connect_with(Connect { room: 7 }, 3, 0);
    s.connect_with(Connect { room: 8 }, 4, 0);
    let out = s.client_message(ClientMessage { id: 1, msg: "a b".to_string(), room: 7 });
    assert_eq!(to(&out), vec![2, 3]);
    for d in &out {
        assert_eq!(d.message, Message("/message 1 a b".to_string()));
    }
    let out = s.client_message(ClientMessage { id: 4, msg: "x".to_string(), room: 8 });
    assert!(out.is_empty());
    let out = s.client_message(ClientMessage { id: 4, msg: "x".to_string(), room: 9 });
    assert!(out.is_empty());
}

#[test]
fn invite_reaches_the_whole_room() {
    let mut s = ChatServer::new();
    s.connect_with(Connect { room: 7 }, 1, 555);
    s.connect_with(Connect { room: 12 }, 2, 0);
    s.connect_with(Connect { room: 12 }, 0, 0);
    let (res, out) = s.invite(Invite { id: 1, room: 12, from_room: 7 });
    assert_eq!(res, InviteResult::Asked);
    assert_eq!(to(&out), vec![0, 2]);
    assert_eq!(out[0].message, Message("/invite 7 1".to_string()));
    assert_eq!(out[1].message, Message("/invite 7 1".to_string()));
    let (res, out) = s.invite(Invite { id: 1, room: 13, from_room: 7 });
    assert_eq!(res, InviteResult::RoomDontExist);
    assert!(out.is_empty());
}

#[test]
fn room_key_goes_to_the_named_session() {
    let mut s = ChatServer::new();
    s.connect_with(Connect { room: 7 }, 1, 555);
    s.connect_with(Connect { room: 12 }, 2, 666);
    s.connect_with(Connect { room: 12 }, 3, 0);
    let (res, out) = s.send_room_key(SendRoomKey { room: 12, from_room: 7, id: 2 });
    assert_eq!(res, SendRoomKeyResult::Send);
    assert_eq!(out, vec![Delivery { to: 2, message: Message("/send 7 Some(555)".to_string()) }]);
    let (res, out) = s.send_room_key(SendRoomKey { room: 12, from_room: 7, id: 1 });
    assert_eq!(res, SendRoomKeyResult::Send);
    assert!(out.is_empty());
    let (res, out) = s.send_room_key(SendRoomKey { room: 13, from_room: 7, id: 2 });
    assert_eq!(res, SendRoomKeyResult::RoomDontExist);
    assert!(out.is_empty());
    let (res, out) = s.send_room_key(SendRoomKey { room: 12, from_room: 13, id: 2 });
    assert_eq!(res, SendRoomKeyResult::RoomDontExist);
    assert!(out.is_empty());
}

#[test]
fn sole_member_joining_its_own_room_loses_the_key() {
    let mut q = Queue::new(10);
    for _ in 0..6 {
        q.reserve();
    }
    let mut s = ChatServer::new();
    s.connect_with(Connect { room: 5 }, 1, 555);
    let (res, out) = s.join(&mut q, Join { id: 1, name: 5, key: 555, room: 5 });
    assert_eq!(res, JoinResult::Joined(5));
    assert_eq!(members(&s, 5), vec![1]);
    assert_eq!(s.room(Room { name: 5 }), None);
    assert_eq!(q.outstanding(), 5);
    assert_eq!(to(&out), vec![1, 1]);
}

#[test]
fn two_clients_meet_in_one_room() {
    let mut q = Queue::new(13);
    let mut s = ChatServer::new();
    let mut x = None;
    let mut y = None;
    for n in 0..13 {
        let session = rendezvous::routes::chat_route(&mut q, 0).unwrap();
        if n == 7 {
            x = Some(session);
        } else if n == 12 {
            y = Some(session);
        }
    }
    let (mut x, mut y): (WsChatSession, WsChatSession) = (x.unwrap(), y.unwrap());
    assert_eq!((x.room, y.room), (7, 12));
    assert!(rendezvous::routes::chat_route(&mut q, 0).is_err());

    let id = s.connect(x.started());
    assert_eq!(x.connected(Ok(id)), vec![]);
    let id = s.connect(y.started());
    assert_eq!(y.connected(Ok(id)), vec![]);
    assert_eq!((x.phase, y.phase), (Phase::Active, Phase::Active));
    if x.id == y.id {
        return;
    }
    let k7 = s.room(Room { name: 7 }).unwrap();
    assert!(s.room(Room { name: 12 }).is_some());

    let ask = match x.text(&format!("/send 12 {}", y.id)) {
        Effect::Ask(Request::SendRoomKey(ask)) => ask,
        other => panic!("{:?}", other),
    };
    let (res, out) = s.send_room_key(ask);
    assert_eq!(x.on_send_room_key(Ok(res)), vec![Effect::Text("/send".to_string())]);
    assert_eq!(
        out,
        vec![Delivery { to: y.id, message: Message(format!("/send 7 Some({})", k7)) }]
    );

    let ask = match y.text(&format!("/join 7 {}", k7)) {
        Effect::Ask(Request::Join(ask)) => ask,
        other => panic!("{:?}", other),
    };
    assert_eq!(ask, Join { id: y.id, name: 7, key: k7, room: 12 });
    let (res, out) = s.join(&mut q, ask);
    assert_eq!(res, JoinResult::Joined(7));
    assert_eq!(y.on_join(Ok(res)), vec![Effect::Text("/joined".to_string())]);
    assert_eq!(y.room, 7);
    assert_eq!(members(&s, 7), sorted(vec![x.id, y.id]));
    assert_eq!(s.room(Room { name: 12 }), None);
    assert_eq!(s.members(Members { room: 12 }), Vec::<usize>::new());
    assert_eq!(s.list_rooms(ListRooms), vec![7]);
    assert_eq!(q.outstanding(), 12);
    assert_eq!(q.reserve().copied(), Some(12));
    assert_eq!(to(&out), sorted(vec![x.id, y.id]));
    for d in &out {
        assert_eq!(announced(d), sorted(vec![x.id, y.id]));
    }
}
