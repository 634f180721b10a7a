//! A rendezvous and signalling coordinator: a bounded pool of room
//! identifiers, a registry of sessions, rooms and room keys, and the
//! per-connection protocol that turns wire text into registry requests.

pub mod queue;
pub mod reserr;
pub mod routes;
pub mod server;
pub mod session;
pub mod text;
