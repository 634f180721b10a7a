//! Admission: a connection is accepted only with a room identifier from the
//! pool.

use crate::queue::Queue;
use crate::reserr::ResErr;
use crate::session::{Phase, WsChatSession};
use vstd::prelude::*;

verus! {

/// Admits a connection that arrives at `now`: reserves a room identifier and
/// makes the session that is bound to it. With the pool exhausted nothing is
/// reserved and the connection is turned down.
pub fn chat_route(queue: &mut Queue, now: u64) -> (res: Result<WsChatSession, ResErr>)
    ensures
        final(queue)@ == old(queue)@.reserve(),
        res is Err <==> old(queue)@.exhausted(),
        res matches Ok(session) ==> session == (WsChatSession {
            id: 0,
            hb: now,
            room: old(queue)@.next(),
            phase: Phase::Connecting,
        }),
        res matches Err(e) ==> e.text() == "full queue"@,
{
    let room = match queue.reserve() {
        Some(x) => Some(*x),
        None => None,
    };
    match room {
        Some(x) => Ok(WsChatSession::new(x, now)),
        None => Err(ResErr::BadClientData("full queue")),
    }
}

/// The connection that was admitted to `room` could not be started: its
/// identifier goes back to the pool, and the client is told that something
/// went wrong.
pub fn start_failed(queue: &mut Queue, room: usize) -> (e: ResErr)
    ensures
        final(queue)@ == old(queue)@.release(room),
        e.text() == "something wrong"@,
{
    queue.release(room);
    ResErr::BadClientData("something wrong")
}

} // verus!
