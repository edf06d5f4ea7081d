//! The concurrent hash tables of the `scc` crate that hold rooms, users and
//! tickets, keyed by the sixteen bytes of an identifier.
//!
//! Every function that changes a table takes it by exclusive reference, so
//! between two calls a table holds exactly what the calls before put there.

use vstd::prelude::*;

use crate::basic_auth::{OwnerAuth, OwnerAuthView};
use crate::ws_handler::room_state::{RoomState, RoomView};
use crate::ws_handler::user_state::{UserState, UserView};

verus! {

#[verifier::external_type_specification]
#[verifier::external_body]
#[verifier::reject_recursive_types(K)]
#[verifier::reject_recursive_types(V)]
#[verifier::reject_recursive_types(H)]
pub struct ExHashIndex<K, V, H>(scc::HashIndex<K, V, H>) where H: core::hash::BuildHasher;

#[verifier::external_type_specification]
#[verifier::external_body]
#[verifier::reject_recursive_types(K)]
#[verifier::reject_recursive_types(V)]
#[verifier::reject_recursive_types(H)]
pub struct ExHashMap<K, V, H>(scc::HashMap<K, V, H>) where H: core::hash::BuildHasher;

#[verifier::external_type_specification]
#[verifier::external_body]
pub struct ExRandomState(ahash::RandomState);

/// The table of rooms.
pub type RoomIndex = scc::HashIndex<[u8; 16], RoomState, ahash::RandomState>;

/// The table of connected users.
pub type UserIndex = scc::HashIndex<[u8; 16], UserState, ahash::RandomState>;

/// The table of checked-auth tickets: a claim and the clock reading at
/// which the ticket expires.
pub type TicketMap = scc::HashMap<[u8; 16], (OwnerAuth, u128)>;

/// The rooms a table holds, by identifier.
pub uninterp spec fn room_entries(rooms: RoomIndex) -> Map<Seq<u8>, RoomView>;

/// The users a table holds, by identifier.
pub uninterp spec fn user_entries(users: UserIndex) -> Map<Seq<u8>, UserView>;

/// The tickets a table holds, by identifier.
pub uninterp spec fn ticket_entries(tickets: TicketMap) -> Map<Seq<u8>, (OwnerAuthView, u128)>;

/// No rooms.
pub open spec fn no_rooms() -> Map<Seq<u8>, RoomView> {
    Map::empty()
}

/// No users.
pub open spec fn no_users() -> Map<Seq<u8>, UserView> {
    Map::empty()
}

/// No tickets.
pub open spec fn no_tickets() -> Map<Seq<u8>, (OwnerAuthView, u128)> {
    Map::empty()
}

/// An empty table of rooms, from `scc::HashIndex::with_capacity_and_hasher`
/// with a hasher from `ahash::RandomState::new`.
#[verifier::external_body]
pub(crate) fn rooms_with_capacity(capacity: usize) -> (rooms: RoomIndex)
    ensures
        room_entries(rooms) == no_rooms(),
{
    scc::HashIndex::with_capacity_and_hasher(capacity, ahash::RandomState::new())
}

/// Puts a room under `key`, through `scc::HashIndex::insert`: a key that
/// is taken keeps its room and the call answers no.
#[verifier::external_body]
pub(crate) fn rooms_insert(rooms: &mut RoomIndex, key: [u8; 16], room: RoomState) -> (inserted: bool)
    ensures
        inserted == !room_entries(*old(rooms)).contains_key(key@),
        room_entries(*final(rooms)) == if inserted {
            room_entries(*old(rooms)).insert(key@, room@)
        } else {
            room_entries(*old(rooms))
        },
{
    rooms.insert(key, room).is_ok()
}

/// Takes the room under `key` out, through `scc::HashIndex::remove`, and
/// answers whether there was one.
#[verifier::external_body]
pub(crate) fn rooms_remove(rooms: &mut RoomIndex, key: &[u8; 16]) -> (removed: bool)
    ensures
        removed == room_entries(*old(rooms)).contains_key(key@),
        room_entries(*final(rooms)) == room_entries(*old(rooms)).remove(key@),
{
    rooms.remove(key)
}

/// A copy of the room under `key`, through `scc::HashIndex::peek_with`.
#[verifier::external_body]
pub(crate) fn rooms_read(rooms: &RoomIndex, key: &[u8; 16]) -> (room: Option<RoomState>)
    ensures
        room is Some <==> room_entries(*rooms).contains_key(key@),
        room matches Some(found) ==> found@ == room_entries(*rooms)[key@],
{
    rooms.peek_with(key, |_, room| room.clone())
}

/// An empty table of users, from `scc::HashIndex::with_capacity_and_hasher`
/// with a hasher from `ahash::RandomState::new`.
#[verifier::external_body]
pub(crate) fn users_with_capacity(capacity: usize) -> (users: UserIndex)
    ensures
        user_entries(users) == no_users(),
{
    scc::HashIndex::with_capacity_and_hasher(capacity, ahash::RandomState::new())
}

/// Puts a user under `key`, through `scc::HashIndex::insert`: a key that
/// is taken keeps its user and the call answers no.
#[verifier::external_body]
pub(crate) fn users_insert(users: &mut UserIndex, key: [u8; 16], user: UserState) -> (inserted: bool)
    ensures
        inserted == !user_entries(*old(users)).contains_key(key@),
        user_entries(*final(users)) == if inserted {
            user_entries(*old(users)).insert(key@, user@)
        } else {
            user_entries(*old(users))
        },
{
    users.insert(key, user).is_ok()
}

/// Takes the user under `key` out, through `scc::HashIndex::remove`, and
/// answers whether there was one.
#[verifier::external_body]
pub(crate) fn users_remove(users: &mut UserIndex, key: &[u8; 16]) -> (removed: bool)
    ensures
        removed == user_entries(*old(users)).contains_key(key@),
        user_entries(*final(users)) == user_entries(*old(users)).remove(key@),
{
    users.remove(key)
}

/// A copy of the user under `key`, through `scc::HashIndex::peek_with`.
#[verifier::external_body]
pub(crate) fn users_read(users: &UserIndex, key: &[u8; 16]) -> (user: Option<UserState>)
    ensures
        user is Some <==> user_entries(*users).contains_key(key@),
        user matches Some(found) ==> found@ == user_entries(*users)[key@],
{
    users.peek_with(key, |_, user| user.clone())
}

/// An empty table of tickets, from `scc::HashMap::with_capacity`.
#[verifier::external_body]
pub(crate) fn tickets_with_capacity(capacity: usize) -> (tickets: TicketMap)
    ensures
        ticket_entries(tickets) == no_tickets(),
{
    scc::HashMap::with_capacity(capacity)
}

/// Whether there is a ticket under `key`, through `scc::HashMap::contains`.
#[verifier::external_body]
pub(crate) fn tickets_contains(tickets: &TicketMap, key: &[u8; 16]) -> (found: bool)
    ensures
        found == ticket_entries(*tickets).contains_key(key@),
{
    tickets.contains(key)
}

/// Puts a ticket under `key`, through `scc::HashMap::insert`: a key that
/// is taken keeps its ticket and the call answers no.
#[verifier::external_body]
pub(crate) fn tickets_insert(
    tickets: &mut TicketMap,
    key: [u8; 16],
    claim: OwnerAuth,
    expires_at: u128,
) -> (inserted: bool)
    ensures
        inserted == !ticket_entries(*old(tickets)).contains_key(key@),
        ticket_entries(*final(tickets)) == if inserted {
            ticket_entries(*old(tickets)).insert(key@, (claim@, expires_at))
        } else {
            ticket_entries(*old(tickets))
        },
{
    tickets.insert(key, (claim, expires_at)).is_ok()
}

/// Takes the ticket under `key` out if its claim holds for a request from
/// `ip_addr` with `user_agent` at `now`, through `scc::HashMap::remove_if`.
/// A ticket whose claim does not hold stays, as does every other ticket.
#[verifier::external_body]
pub(crate) fn tickets_remove_if_valid(
    tickets: &mut TicketMap,
    key: &[u8; 16],
    ip_addr: &String,
    user_agent: &String,
    now: u128,
) -> (taken: Option<OwnerAuth>)
    ensures
        taken is Some <==> ticket_entries(*old(tickets)).contains_key(key@) && ticket_entries(
            *old(tickets),
        )[key@].0.is_valid(ip_addr@, user_agent@, now),
        taken matches Some(claim) ==> claim@ == ticket_entries(*old(tickets))[key@].0,
        ticket_entries(*final(tickets)) == if taken is Some {
            ticket_entries(*old(tickets)).remove(key@)
        } else {
            ticket_entries(*old(tickets))
        },
{
    tickets.remove_if(key, |ticket| ticket.0.is_valid_at(ip_addr, user_agent, now)).map(
        |(_, ticket)| ticket.0,
    )
}

/// A ticket is kept by the sweep at `now` while it expires later than that.
pub open spec fn outlives(ticket: (OwnerAuthView, u128), now: u128) -> bool {
    ticket.1 > now
}

/// Whether a ticket is kept by the sweep at `now`.
pub fn ticket_outlives(ticket: &(OwnerAuth, u128), now: u128) -> (kept: bool)
    ensures
        kept == outlives((ticket.0@, ticket.1), now),
{
    ticket.1 > now
}

/// Drops every ticket that does not outlive `now`, through
/// `scc::HashMap::retain`. The tickets that stay are unchanged.
#[verifier::external_body]
pub(crate) fn tickets_retain_outliving(tickets: &mut TicketMap, now: u128)
    ensures
        forall|key: Seq<u8>| #[trigger]
            ticket_entries(*final(tickets)).contains_key(key) <==> ticket_entries(
                *old(tickets),
            ).contains_key(key) && outlives(ticket_entries(*old(tickets))[key], now),
        forall|key: Seq<u8>| #[trigger]
            ticket_entries(*final(tickets)).contains_key(key) ==> ticket_entries(
                *final(tickets),
            )[key] == ticket_entries(*old(tickets))[key],
{
    tickets.retain(|_, ticket| ticket_outlives(ticket, now));
}

} // verus!
