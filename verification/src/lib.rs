//! The room fabric of a synchronized watch-party server: identifiers, owner
//! claims, the text packet protocol, per-room playback state, the room and
//! user registries and the decisions a connection takes on every frame.
//!
//! Apart from reading the clock and drawing random identifiers, nothing in
//! this crate touches the outside world. Decisions come back as values
//! (`Outcome`, `RecvStep`, `SendStep`, `Admission`, `Departure`) that the
//! embedding server carries out on its sockets, channels and timers.

pub mod basic_auth;
pub mod common;
pub mod sturdy_ws;
pub mod web;
pub mod ws_handler;
