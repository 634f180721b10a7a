use rendezvous::queue::Queue;
use rendezvous::reserr::{ResErr, BAD_REQUEST};
use rendezvous::routes::{chat_route, start_failed};
use rendezvous::session::{Phase, WsChatSession};

#[test]
fn fresh_pool_hands_out_in_order() {
    let mut q = Queue::new(3);
    assert_eq!(q.capacity(), 3);
    assert_eq!(q.outstanding(), 0);
    assert_eq!(q.reserve().copied(), Some(0));
    assert_eq!(q.reserve().copied(), Some(1));
    assert_eq!(q.reserve().copied(), Some(2));
    assert_eq!(q.outstanding(), 3);
}

#[test]
fn exhausted_pool_yields_nothing_and_stays() {
    let mut q = Queue::new(2);
    assert!(q.reserve().is_some());
    assert!(q.reserve().is_some());
    assert_eq!(q.reserve(), None);
    assert_eq!(q.reserve(), None);
    assert_eq!(q.outstanding(), 2);
}

#[test]
fn empty_pool_is_exhausted_at_once() {
    let mut q = Queue::new(0);
    assert_eq!(q.capacity(), 0);
    assert_eq!(q.reserve(), None);
    assert_eq!(q.outstanding(), 0);
}

#[test]
fn refund_then_reserve_returns_the_refunded() {
    let mut q = Queue::new(4);
    for _ in 0..4 {
        assert!(q.reserve().is_some());
    }
    assert_eq!(q.reserve(), None);
    q.refund(&3);
    assert_eq!(q.outstanding(), 3);
    assert_eq!(q.reserve().copied(), Some(3));
    assert_eq!(q.reserve(), None);
}

#[test]
fn stack_order_never_issues_an_identifier_twice() {
    let mut q = Queue::new(5);
    let mut live: Vec<usize> = Vec::new();
    let script = [true, true, true, false, true, false, false, true, true, true, true, false, true];
    for step in script {
        if step {
            if let Some(id) = q.reserve().copied() {
                assert!(!live.contains(&id));
                live.push(id);
            } else {
                assert_eq!(live.len(), 5);
            }
        } else if let Some(id) = live.pop() {
            q.refund(&id);
        }
        assert!(live.len() <= 5);
        assert_eq!(q.outstanding(), live.len());
    }
}

#[test]
fn refund_writes_the_identifier_before_the_cursor() {
    let mut q = Queue::new(3);
    assert_eq!(q.reserve().copied(), Some(0));
    assert_eq!(q.reserve().copied(), Some(1));
    q.refund(&0);
    assert_eq!(q.reserve().copied(), Some(0));
    assert_eq!(q.reserve().copied(), Some(2));
    assert_eq!(q.reserve(), None);
}

#[test]
fn release_on_untouched_pool_changes_nothing() {
    let mut q = Queue::new(2);
    q.release(1);
    assert_eq!(q.outstanding(), 0);
    assert_eq!(q.reserve().copied(), Some(0));
    q.release(7);
    assert_eq!(q.outstanding(), 0);
    assert_eq!(q.reserve().copied(), Some(7));
}

#[test]
fn admission_reserves_a_room() {
    let mut q = Queue::new(2);
    let s = chat_route(&mut q, 42).unwrap();
    assert_eq!(s, WsChatSession { id: 0, hb: 42, room: 0, phase: Phase::Connecting });
    let s = chat_route(&mut q, 43).unwrap();
    assert_eq!(s.room, 1);
    assert_eq!(q.outstanding(), 2);
}

#[test]
fn admission_fails_on_full_queue() {
    let mut q = Queue::new(1);
    assert!(chat_route(&mut q, 0).is_ok());
    let e = chat_route(&mut q, 0).unwrap_err();
    assert_eq!(e.message(), "full queue");
    assert_eq!(e.status_code(), 400);
    assert_eq!(q.outstanding(), 1);
}

#[test]
fn failed_start_gives_the_room_back() {
    let mut q = Queue::new(3);
    let s = chat_route(&mut q, 0).unwrap();
    let e = start_failed(&mut q, s.room);
    assert_eq!(e.message(), "something wrong");
    assert_eq!(q.outstanding(), 0);
    assert_eq!(q.reserve().copied(), Some(s.room));
}

#[test]
fn bad_client_data_shows_its_text() {
    let e = ResErr::BadClientData("no");
    assert_eq!(e.message(), "no");
    assert_eq!(e.status_code(), BAD_REQUEST);
    assert_eq!(BAD_REQUEST, 400);
}

#[test]
fn identifiers_given_back_out_of_order_are_handed_out_once() {
    let mut q = Queue::new(3);
    assert_eq!(q.reserve().copied(), Some(0));
    assert_eq!(q.reserve().copied(), Some(1));
    assert_eq!(q.reserve().copied(), Some(2));
    q.refund(&0);
    q.refund(&2);
    assert_eq!(q.outstanding(), 1);
    assert_eq!(q.reserve().copied(), Some(2));
    assert_eq!(q.reserve().copied(), Some(0));
    assert_eq!(q.reserve(), None);
}
