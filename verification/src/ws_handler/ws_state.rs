//! The server context: the registry of rooms, the registry of connected
//! users and the store of checked-auth tickets.

use vstd::prelude::*;

use crate::basic_auth::{
    deadline, deadline_after, OwnerAuth, OwnerAuthView, CHECKED_AUTH_EXPIRATION,
};
use crate::common::get_new_id;
use crate::common::nanoid::is_url_safe_id;
use crate::common::ubucket::{
    no_rooms, no_tickets, no_users, room_entries, rooms_insert, rooms_read,
    rooms_remove, rooms_with_capacity, ticket_entries, tickets_contains, tickets_insert,
    tickets_remove_if_valid,
    tickets_retain_outliving, tickets_with_capacity, user_entries, users_insert, users_read,
    users_remove, users_with_capacity, RoomIndex, TicketMap, UserIndex,
};
use crate::common::utils::get_elapsed_milis;
use crate::common::Id;
use crate::sturdy_ws::ws_message::{CloseCode, CloseFrame, WebSocketMessage};
use crate::ws_handler::room_state::{RoomState, RoomView};
use crate::ws_handler::user_state::{
    recv_reaction, Incoming, RecvStep, RecvStepView, RecvTask, UserState, UserView,
};
use crate::ws_handler::{Permission, VideoData, VideoView};

verus! {

/// The path under which rooms accept WebSocket connections.
pub const DEFAULT_WS: &'static str = "room/ws";

/// The most seats a room can have.
pub const MAX_USERS: u32 = 100;

/// How many times an identifier is drawn for one new room, user or ticket
/// before the registry settles for one that is taken.
pub const ID_DRAWS: usize = 8;

/// Why the registry refused a request.
#[derive(Clone, Copy, Debug, PartialEq, Eq, Structural)]
pub enum WebSocketStateError {
    MaxUserExceeded,
    NoRoom,
    RoomFull,
    NoUser,
    NoOwner,
    /// The identifier drawn for a new connection is held by another one.
    IdInUse,
}

impl WebSocketStateError {
    /// The sentence shown to the client.
    pub fn message(&self) -> (text: &'static str)
        ensures
            text@ == match *self {
                WebSocketStateError::MaxUserExceeded => "Max user exceeded!"@,
                WebSocketStateError::NoRoom => "The spcified room doesn't exist."@,
                WebSocketStateError::RoomFull => "The spcified room is full."@,
                WebSocketStateError::NoUser => "The spcified user doesn't exist."@,
                WebSocketStateError::NoOwner => "The spcified owner doesn't exist."@,
                WebSocketStateError::IdInUse => "The identifier is already in use."@,
            },
    {
        match self {
            WebSocketStateError::MaxUserExceeded => "Max user exceeded!",
            WebSocketStateError::NoRoom => "The spcified room doesn't exist.",
            WebSocketStateError::RoomFull => "The spcified room is full.",
            WebSocketStateError::NoUser => "The spcified user doesn't exist.",
            WebSocketStateError::NoOwner => "The spcified owner doesn't exist.",
            WebSocketStateError::IdInUse => "The identifier is already in use.",
        }
    }
}

/// The connections attached to a room: the users that sit in it.
pub open spec fn attached_to(users: Map<Seq<u8>, UserView>, room_id: Seq<u8>) -> Set<Seq<u8>> {
    users.dom().filter(|user_id: Seq<u8>| users[user_id].room_id == room_id)
}

/// The mathematical content of a [`WsState`].
pub struct WsView {
    pub rooms: Map<Seq<u8>, RoomView>,
    pub users: Map<Seq<u8>, UserView>,
    pub tickets: Map<Seq<u8>, (OwnerAuthView, u128)>,
}

impl WsView {
    /// The connections attached to a room.
    pub open spec fn attached(self, room_id: Seq<u8>) -> Set<Seq<u8>> {
        attached_to(self.users, room_id)
    }

    /// Rooms and users are filed under their own identifiers; every room is
    /// well formed, has no more seats than a room can have, and has exactly
    /// as many seats taken as connections are attached to it; every user
    /// sits in a room that exists.
    pub open spec fn wf(self) -> bool {
        &&& self.rooms.dom().finite()
        &&& self.users.dom().finite()
        &&& forall|room_id: Seq<u8>| #[trigger]
            self.rooms.contains_key(room_id) ==> {
                &&& self.rooms[room_id].wf()
                &&& self.rooms[room_id].id == room_id
                &&& self.rooms[room_id].max_users <= MAX_USERS
                &&& self.attached(room_id).len() == self.rooms[room_id].seated()
            }
        &&& forall|user_id: Seq<u8>| #[trigger]
            self.users.contains_key(user_id) ==> {
                &&& self.users[user_id].id == user_id
                &&& self.rooms.contains_key(self.users[user_id].room_id)
            }
    }

    /// Why a connection cannot take a seat in `room_id` under the
    /// identifier `user_id`, if it cannot.
    pub open spec fn join_refusal(self, room_id: Seq<u8>, user_id: Seq<u8>) -> Option<
        WebSocketStateError,
    > {
        if !self.rooms.contains_key(room_id) {
            Some(WebSocketStateError::NoRoom)
        } else if self.rooms[room_id].is_full() {
            Some(WebSocketStateError::RoomFull)
        } else if self.users.contains_key(user_id) {
            Some(WebSocketStateError::IdInUse)
        } else {
            None
        }
    }

    /// The registry with one more room. Where the identifier of the room
    /// is already that of a room, that room stays as it is.
    pub open spec fn with_room(self, room: RoomView) -> WsView {
        if self.rooms.contains_key(room.id) {
            self
        } else {
            WsView { rooms: self.rooms.insert(room.id, room), ..self }
        }
    }

    /// The room `room_id` exists and has waited empty for its whole grace
    /// period when the clock reads `now`.
    pub open spec fn teardown_due(self, room_id: Seq<u8>, now: u128) -> bool {
        self.rooms.contains_key(room_id) && self.rooms[room_id].is_due(now)
    }

    /// The registry without the room `room_id`.
    pub open spec fn without_room(self, room_id: Seq<u8>) -> WsView {
        WsView { rooms: self.rooms.remove(room_id), ..self }
    }

    /// The registry with one more ticket. Where the identifier is already
    /// that of a ticket, that ticket stays as it is.
    pub open spec fn with_ticket(self, id: Seq<u8>, claim: OwnerAuthView, expires_at: u128) -> WsView {
        if self.tickets.contains_key(id) {
            self
        } else {
            WsView { tickets: self.tickets.insert(id, (claim, expires_at)), ..self }
        }
    }

    /// The ticket `id` exists and its claim holds for a request from
    /// `ip_addr` with `user_agent` when the clock reads `now`.
    pub open spec fn consumable(
        self,
        id: Seq<u8>,
        ip_addr: Seq<char>,
        user_agent: Seq<char>,
        now: u128,
    ) -> bool {
        self.tickets.contains_key(id) && self.tickets[id].0.is_valid(ip_addr, user_agent, now)
    }

    /// The registry without the ticket `id`.
    pub open spec fn without_ticket(self, id: Seq<u8>) -> WsView {
        WsView { tickets: self.tickets.remove(id), ..self }
    }

    /// The registry after the sweep at `now`: only the tickets that expire
    /// later than `now` are left.
    pub open spec fn swept(self, now: u128) -> WsView {
        WsView {
            tickets: Map::new(
                |id: Seq<u8>| self.tickets.contains_key(id) && self.tickets[id].1 > now,
                |id: Seq<u8>| self.tickets[id],
            ),
            ..self
        }
    }

    /// The registry in which the room `room_id` has the playback state
    /// `data`.
    pub open spec fn with_data(self, room_id: Seq<u8>, data: VideoView) -> WsView {
        WsView {
            rooms: self.rooms.insert(room_id, RoomView { data, ..self.rooms[room_id] }),
            ..self
        }
    }

    /// The registry after `user` took a seat in the room it names.
    pub open spec fn joined(self, user: UserView) -> WsView {
        WsView {
            rooms: self.rooms.insert(user.room_id, self.rooms[user.room_id].joined()),
            users: self.users.insert(user.id, user),
            ..self
        }
    }

    /// The registry after the user `user_id` gave up its seat at `now`.
    pub open spec fn left(self, user_id: Seq<u8>, now: u128) -> WsView {
        let room_id = self.users[user_id].room_id;
        WsView {
            rooms: self.rooms.insert(room_id, self.rooms[room_id].left(now)),
            users: self.users.remove(user_id),
            ..self
        }
    }
}

/// The connections attached to any room of a finite registry are finitely
/// many.
pub proof fn lemma_attached_finite(users: Map<Seq<u8>, UserView>, room_id: Seq<u8>)
    requires
        users.dom().finite(),
    ensures
        attached_to(users, room_id).finite(),
{
    users.dom().lemma_len_filter(|user_id: Seq<u8>| users[user_id].room_id == room_id);
}

/// A new user is attached to the room it names and to no other.
pub proof fn lemma_attached_insert(
    users: Map<Seq<u8>, UserView>,
    user: UserView,
    room_id: Seq<u8>,
)
    requires
        users.dom().finite(),
        !users.contains_key(user.id),
    ensures
        attached_to(users.insert(user.id, user), room_id).len() == attached_to(users, room_id).len()
            + if user.room_id == room_id {
            1int
        } else {
            0int
        },
{
    lemma_attached_finite(users, room_id);
    if user.room_id == room_id {
        assert(attached_to(users.insert(user.id, user), room_id) =~= attached_to(
            users,
            room_id,
        ).insert(user.id));
    } else {
        assert(attached_to(users.insert(user.id, user), room_id) =~= attached_to(users, room_id));
    }
}

/// A user that goes is detached from the room it sat in and from no other.
pub proof fn lemma_attached_remove(
    users: Map<Seq<u8>, UserView>,
    user_id: Seq<u8>,
    room_id: Seq<u8>,
)
    requires
        users.dom().finite(),
        users.contains_key(user_id),
    ensures
        attached_to(users.remove(user_id), room_id).len() == attached_to(users, room_id).len()
            - if users[user_id].room_id == room_id {
            1int
        } else {
            0int
        },
{
    lemma_attached_finite(users, room_id);
    if users[user_id].room_id == room_id {
        assert(attached_to(users.remove(user_id), room_id) =~= attached_to(
            users,
            room_id,
        ).remove(user_id));
    } else {
        assert(attached_to(users.remove(user_id), room_id) =~= attached_to(users, room_id));
    }
}

/// At all times every room has between zero and all of its seats free, and
/// the connections attached to it are exactly as many as its seats taken.
pub proof fn lemma_seats_match_connections(ws: WsView, room_id: Seq<u8>)
    requires
        ws.wf(),
        ws.rooms.contains_key(room_id),
    ensures
        0 <= ws.rooms[room_id].remaining_users <= ws.rooms[room_id].max_users,
        ws.attached(room_id).finite(),
        ws.attached(room_id).len() == ws.rooms[room_id].max_users
            - ws.rooms[room_id].remaining_users,
{
    lemma_attached_finite(ws.users, room_id);
}

/// Opening a room with every seat free keeps the registry well formed.
pub proof fn lemma_with_room_keeps_wf(ws: WsView, room: RoomView)
    requires
        ws.wf(),
        room.wf(),
        room.is_empty(),
        room.max_users <= MAX_USERS,
    ensures
        ws.with_room(room).wf(),
{
    if !ws.rooms.contains_key(room.id) {
        let after = ws.with_room(room);
        lemma_attached_finite(ws.users, room.id);
        assert(after.attached(room.id) =~= Set::<Seq<u8>>::empty());
        assert forall|other: Seq<u8>| #[trigger] after.rooms.contains_key(other) implies {
            &&& after.rooms[other].wf()
            &&& after.rooms[other].id == other
            &&& after.rooms[other].max_users <= MAX_USERS
            &&& after.attached(other).len() == after.rooms[other].seated()
        } by {
            if other != room.id {
                assert(ws.rooms.contains_key(other));
            }
        }
    }
}

/// Seating a connection that is not refused keeps the registry well
/// formed: its room has one seat less free and one connection more.
pub proof fn lemma_joined_keeps_wf(ws: WsView, user: UserView)
    requires
        ws.wf(),
        ws.join_refusal(user.room_id, user.id) is None,
    ensures
        ws.joined(user).wf(),
{
    let after = ws.joined(user);
    assert(after.rooms.dom() =~= ws.rooms.dom());
    assert forall|other: Seq<u8>| #[trigger] after.rooms.contains_key(other) implies {
        &&& after.rooms[other].wf()
        &&& after.rooms[other].id == other
        &&& after.rooms[other].max_users <= MAX_USERS
        &&& after.attached(other).len() == after.rooms[other].seated()
    } by {
        assert(ws.rooms.contains_key(other));
        lemma_attached_insert(ws.users, user, other);
    }
    assert forall|other: Seq<u8>| #[trigger] after.users.contains_key(other) implies {
        &&& after.users[other].id == other
        &&& after.rooms.contains_key(after.users[other].room_id)
    } by {
        if other != user.id {
            assert(ws.users.contains_key(other));
        }
    }
}

/// The leave of a registered user keeps the registry well formed: its
/// room, in which it held a seat, has one seat more free and one
/// connection less.
pub proof fn lemma_left_keeps_wf(ws: WsView, user_id: Seq<u8>, now: u128)
    requires
        ws.wf(),
        ws.users.contains_key(user_id),
    ensures
        !ws.rooms[ws.users[user_id].room_id].is_empty(),
        ws.left(user_id, now).wf(),
{
    let room_id = ws.users[user_id].room_id;
    let after = ws.left(user_id, now);
    lemma_attached_finite(ws.users, room_id);
    assert(ws.attached(room_id).contains(user_id));
    assert(ws.attached(room_id).len() > 0);
    assert(after.rooms.dom() =~= ws.rooms.dom());
    assert forall|other: Seq<u8>| #[trigger] after.rooms.contains_key(other) implies {
        &&& after.rooms[other].wf()
        &&& after.rooms[other].id == other
        &&& after.rooms[other].max_users <= MAX_USERS
        &&& after.attached(other).len() == after.rooms[other].seated()
    } by {
        assert(ws.rooms.contains_key(other));
        lemma_attached_remove(ws.users, user_id, other);
    }
    assert forall|other: Seq<u8>| #[trigger] after.users.contains_key(other) implies {
        &&& after.users[other].id == other
        &&& after.rooms.contains_key(after.users[other].room_id)
    } by {
        assert(ws.users.contains_key(other));
    }
}

/// Removing an empty room keeps the registry well formed: no user sits in
/// it.
pub proof fn lemma_without_room_keeps_wf(ws: WsView, room_id: Seq<u8>)
    requires
        ws.wf(),
        ws.rooms.contains_key(room_id),
        ws.rooms[room_id].is_empty(),
    ensures
        ws.without_room(room_id).wf(),
{
    let after = ws.without_room(room_id);
    lemma_attached_finite(ws.users, room_id);
    assert(ws.attached(room_id).len() == 0);
    assert forall|other: Seq<u8>| #[trigger] after.users.contains_key(other) implies {
        &&& after.users[other].id == other
        &&& after.rooms.contains_key(after.users[other].room_id)
    } by {
        assert(ws.users.contains_key(other));
        if ws.users[other].room_id == room_id {
            assert(ws.attached(room_id).contains(other));
        }
    }
    assert forall|other: Seq<u8>| #[trigger] after.rooms.contains_key(other) implies {
        &&& after.rooms[other].wf()
        &&& after.rooms[other].id == other
        &&& after.rooms[other].max_users <= MAX_USERS
        &&& after.attached(other).len() == after.rooms[other].seated()
    } by {
        assert(ws.rooms.contains_key(other));
    }
}

/// Writing a well-formed playback state into a room keeps the registry
/// well formed.
pub proof fn lemma_with_data_keeps_wf(ws: WsView, room_id: Seq<u8>, data: VideoView)
    requires
        ws.wf(),
        ws.rooms.contains_key(room_id),
        data.wf(),
    ensures
        ws.with_data(room_id, data).wf(),
{
    let after = ws.with_data(room_id, data);
    assert(after.rooms.dom() =~= ws.rooms.dom());
    assert forall|other: Seq<u8>| #[trigger] after.rooms.contains_key(other) implies {
        &&& after.rooms[other].wf()
        &&& after.rooms[other].id == other
        &&& after.rooms[other].max_users <= MAX_USERS
        &&& after.attached(other).len() == after.rooms[other].seated()
    } by {
        assert(ws.rooms.contains_key(other));
    }
    assert forall|other: Seq<u8>| #[trigger] after.users.contains_key(other) implies {
        &&& after.users[other].id == other
        &&& after.rooms.contains_key(after.users[other].room_id)
    } by {
        assert(ws.users.contains_key(other));
    }
}

/// The server context.
pub struct WsState {
    users: UserIndex,
    rooms: RoomIndex,
    checked_auth_ids: TicketMap,
}

impl View for WsState {
    type V = WsView;

    closed spec fn view(&self) -> WsView {
        WsView {
            rooms: room_entries(self.rooms),
            users: user_entries(self.users),
            tickets: ticket_entries(self.checked_auth_ids),
        }
    }
}

impl WsState {
    /// A server context without rooms, users or tickets.
    pub fn new() -> (state: WsState)
        ensures
            state@.wf(),
            state@.rooms == no_rooms(),
            state@.users == no_users(),
            state@.tickets == no_tickets(),
    {
        WsState {
            users: users_with_capacity(20),
            rooms: rooms_with_capacity(10),
            checked_auth_ids: tickets_with_capacity(10),
        }
    }

    /// Opens a room under the identifier `room_id` with every seat free.
    /// More seats than `MAX_USERS` are refused. Where the identifier is
    /// already that of a room, that room stays as it is.
    pub fn create_room_as(
        &mut self,
        data: VideoData,
        name: String,
        max_users: u32,
        room_id: Id,
    ) -> (created: Result<(Id, String), WebSocketStateError>)
        requires
            old(self)@.wf(),
            data@.wf(),
        ensures
            final(self)@.wf(),
            created is Err <==> max_users > MAX_USERS,
            created matches Err(error) ==> error == WebSocketStateError::MaxUserExceeded && final(self)@ == old(self)@,
            created matches Ok((id, ws_path)) ==> {
                &&& id@ == room_id@
                &&& ws_path@ == DEFAULT_WS@
                &&& final(self)@ == old(self)@.with_room(
                    RoomView::fresh(data@, room_id@, name@, max_users),
                )
            },
    {
        if max_users > MAX_USERS {
            return Err(WebSocketStateError::MaxUserExceeded);
        }
        let room = RoomState::new(data, room_id, name, max_users);
        proof {
            lemma_with_room_keeps_wf(old(self)@, room@);
        }
        rooms_insert(&mut self.rooms, room_id.bytes(), room);
        Ok((room_id, DEFAULT_WS.to_owned()))
    }

    /// Opens a room under a fresh identifier with every seat free. More
    /// seats than `MAX_USERS` are refused.
    pub fn create_room(&mut self, data: VideoData, name: String, max_users: u32) -> (created:
        Result<(Id, String), WebSocketStateError>)
        requires
            old(self)@.wf(),
            data@.wf(),
        ensures
            final(self)@.wf(),
            created is Err <==> max_users > MAX_USERS,
            created matches Err(error) ==> error == WebSocketStateError::MaxUserExceeded && final(self)@ == old(self)@,
            created matches Ok((id, ws_path)) ==> {
                &&& ws_path@ == DEFAULT_WS@
                &&& final(self)@ == old(self)@.with_room(
                    RoomView::fresh(data@, id@, name@, max_users),
                )
            },
    {
        let room_id = self.new_room_id();
        self.create_room_as(data, name, max_users, room_id)
    }

    /// Looks a room up for a client that wants to join it: its identifier,
    /// its name and the path to connect to. A room that does not exist or
    /// has no free seat is refused.
    pub fn verify_room(&self, room_id: Id) -> (verified: Result<
        (Id, String, String),
        WebSocketStateError,
    >)
        ensures
            match verified {
                Ok((id, name, ws_path)) => {
                    &&& self@.rooms.contains_key(room_id@)
                    &&& !self@.rooms[room_id@].is_full()
                    &&& id@ == room_id@
                    &&& name@ == self@.rooms[room_id@].name
                    &&& ws_path@ == DEFAULT_WS@
                },
                Err(error) => error == if !self@.rooms.contains_key(room_id@) {
                    WebSocketStateError::NoRoom
                } else {
                    WebSocketStateError::RoomFull
                } && (!self@.rooms.contains_key(room_id@) || self@.rooms[room_id@].is_full()),
            },
    {
        let room = match rooms_read(&self.rooms, &room_id.bytes()) {
            None => {
                return Err(WebSocketStateError::NoRoom);
            },
            Some(room) => room,
        };
        if room.is_full() {
            return Err(WebSocketStateError::RoomFull);
        }
        Ok((room_id, room.name(), DEFAULT_WS.to_owned()))
    }

    /// A copy of the room `room_id` as it stands.
    pub fn get_room(&self, room_id: Id) -> (room: Result<RoomState, WebSocketStateError>)
        ensures
            room is Ok <==> self@.rooms.contains_key(room_id@),
            room matches Ok(found) ==> found@ == self@.rooms[room_id@],
            room matches Err(error) ==> error == WebSocketStateError::NoRoom,
    {
        match rooms_read(&self.rooms, &room_id.bytes()) {
            None => Err(WebSocketStateError::NoRoom),
            Some(room) => Ok(room),
        }
    }

    /// A copy of the user `user_id` as registered.
    pub fn get_user(&self, user_id: Id) -> (user: Result<UserState, WebSocketStateError>)
        ensures
            user is Ok <==> self@.users.contains_key(user_id@),
            user matches Ok(found) ==> found@ == self@.users[user_id@],
            user matches Err(error) ==> error == WebSocketStateError::NoUser,
    {
        match users_read(&self.users, &user_id.bytes()) {
            None => Err(WebSocketStateError::NoUser),
            Some(user) => Ok(user),
        }
    }

    /// Seats a connection in `room_id` under the identifier `user_id` and
    /// registers it as a user. With `permission` given the user holds it;
    /// without, the user inherits the permission of the room.
    ///
    /// A room that does not exist, a room without a free seat and an
    /// identifier that another user holds are refused, in this order, and
    /// leave everything as it was.
    pub fn join_room_as(
        &mut self,
        room_id: Id,
        user_id: Id,
        name: String,
        permission: Option<Permission>,
    ) -> (joined: Result<UserState, WebSocketStateError>)
        requires
            old(self)@.wf(),
        ensures
            final(self)@.wf(),
            match joined {
                Err(error) => old(self)@.join_refusal(room_id@, user_id@) == Some(error) && final(self)@ == old(self)@,
                Ok(user) => {
                    &&& old(self)@.join_refusal(room_id@, user_id@) is None
                    &&& user@ == (UserView {
                        id: user_id@,
                        room_id: room_id@,
                        name: name@,
                        permission: match permission {
                            Some(given) => given@,
                            None => old(self)@.rooms[room_id@].data.permission,
                        },
                    })
                    &&& final(self)@ == old(self)@.joined(user@)
                },
            },
    {
        let room_key = room_id.bytes();
        let mut room = match rooms_read(&self.rooms, &room_key) {
            None => {
                return Err(WebSocketStateError::NoRoom);
            },
            Some(room) => room,
        };
        if room.is_full() {
            return Err(WebSocketStateError::RoomFull);
        }
        let permission = match permission {
            Some(given) => given,
            None => room.data().get_permission(),
        };
        let user = UserState { id: user_id, room_id, name, permission };
        if !users_insert(&mut self.users, user_id.bytes(), user.clone()) {
            return Err(WebSocketStateError::IdInUse);
        }
        room.user_join();
        rooms_remove(&mut self.rooms, &room_key);
        rooms_insert(&mut self.rooms, room_key, room);
        proof {
            assert(self@.rooms =~= old(self)@.joined(user@).rooms);
            lemma_joined_keeps_wf(old(self)@, user@);
        }
        Ok(user)
    }

    /// Seats a connection in `room_id` under a fresh identifier and
    /// registers it as a user. A room that does not exist or has no free
    /// seat is refused and leaves everything as it was.
    pub fn join_room(&mut self, room_id: Id, name: String, permission: Option<Permission>) -> (joined:
        Result<UserState, WebSocketStateError>)
        requires
            old(self)@.wf(),
        ensures
            final(self)@.wf(),
            !old(self)@.rooms.contains_key(room_id@) ==> joined == Err::<
                UserState,
                WebSocketStateError,
            >(WebSocketStateError::NoRoom),
            old(self)@.rooms.contains_key(room_id@) && old(self)@.rooms[room_id@].is_full()
                ==> joined == Err::<UserState, WebSocketStateError>(WebSocketStateError::RoomFull),
            match joined {
                Err(error) => {
                    &&& final(self)@ == old(self)@
                    &&& exists|user_id: Seq<u8>| #[trigger]
                        old(self)@.join_refusal(room_id@, user_id) == Some(error)
                },
                Ok(user) => {
                    &&& user@.room_id == room_id@
                    &&& user@.name == name@
                    &&& user@.permission == match permission {
                        Some(given) => given@,
                        None => old(self)@.rooms[room_id@].data.permission,
                    }
                    &&& old(self)@.join_refusal(room_id@, user@.id) is None
                    &&& final(self)@ == old(self)@.joined(user@)
                },
            },
    {
        let user_id = self.new_user_id();
        self.join_room_as(room_id, user_id, name, permission)
    }
}


impl WsState {
    /// An identifier for a new room: drawn at random, and drawn again
    /// while the one drawn is that of a room, `ID_DRAWS` times at most.
    pub fn new_room_id(&self) -> (id: Id)
        ensures
            is_url_safe_id(id@),
    {
        let mut id = get_new_id();
        let mut draws: usize = 1;
        while draws < ID_DRAWS && rooms_read(&self.rooms, &id.bytes()).is_some()
            invariant
                is_url_safe_id(id@),
            decreases ID_DRAWS - draws,
        {
            id = get_new_id();
            draws = draws + 1;
        }
        id
    }

    /// An identifier for a new user: drawn at random, and drawn again
    /// while the one drawn is that of a user, `ID_DRAWS` times at most.
    pub fn new_user_id(&self) -> (id: Id)
        ensures
            is_url_safe_id(id@),
    {
        let mut id = get_new_id();
        let mut draws: usize = 1;
        while draws < ID_DRAWS && users_read(&self.users, &id.bytes()).is_some()
            invariant
                is_url_safe_id(id@),
            decreases ID_DRAWS - draws,
        {
            id = get_new_id();
            draws = draws + 1;
        }
        id
    }

    /// An identifier for a new ticket: drawn at random, and drawn again
    /// while the one drawn is that of a ticket, `ID_DRAWS` times at most.
    pub fn new_ticket_id(&self) -> (id: Id)
        ensures
            is_url_safe_id(id@),
    {
        let mut id = get_new_id();
        let mut draws: usize = 1;
        while draws < ID_DRAWS && tickets_contains(&self.checked_auth_ids, &id.bytes())
            invariant
                is_url_safe_id(id@),
            decreases ID_DRAWS - draws,
        {
            id = get_new_id();
            draws = draws + 1;
        }
        id
    }
}

/// What the server does after a connection has gone.
pub struct Departure {
    /// The user that left, as it was registered.
    pub user: UserState,
    /// Whether any connection still sits in the room. If so the others are
    /// told that the user left; if not, the room waits for its teardown and
    /// is to be checked again after `CLIENT_TIMEOUT`.
    pub users_remain: bool,
}

impl WsState {
    /// Leave accounting for the connection `user_id` at `now`: the user is
    /// taken out of the registry and its seat is given back to its room.
    /// An identifier that no user holds changes nothing.
    pub fn user_left(&mut self, user_id: Id, now: u128) -> (left: Result<
        Departure,
        WebSocketStateError,
    >)
        requires
            old(self)@.wf(),
        ensures
            final(self)@.wf(),
            left is Ok <==> old(self)@.users.contains_key(user_id@),
            match left {
                Err(error) => error == WebSocketStateError::NoUser && final(self)@ == old(self)@,
                Ok(departure) => {
                    &&& departure.user@ == old(self)@.users[user_id@]
                    &&& final(self)@ == old(self)@.left(user_id@, now)
                    &&& departure.users_remain == !final(self)@.rooms[departure.user@.room_id].is_empty()
                },
            },
    {
        let user_key = user_id.bytes();
        let user = match users_read(&self.users, &user_key) {
            None => {
                return Err(WebSocketStateError::NoUser);
            },
            Some(user) => user,
        };
        let room_key = user.room_id.bytes();
        let mut room = match rooms_read(&self.rooms, &room_key) {
            None => {
                return Err(vstd::pervasive::unreached());
            },
            Some(room) => room,
        };
        proof {
            lemma_left_keeps_wf(self@, user_id@, now);
        }
        let users_remain = room.user_left(now);
        users_remove(&mut self.users, &user_key);
        rooms_remove(&mut self.rooms, &room_key);
        rooms_insert(&mut self.rooms, room_key, room);
        assert(self@.rooms =~= old(self)@.left(user_id@, now).rooms);
        Ok(Departure { user, users_remain })
    }

    /// The check that follows the grace period of an emptied room: the room
    /// is removed if, and only if, it exists and its teardown timer was
    /// armed at least `CLIENT_TIMEOUT` before `now` with no join since.
    /// Answers whether the room was removed.
    pub fn room_shutdown_gracefully(&mut self, room_id: Id, now: u128) -> (removed: bool)
        requires
            old(self)@.wf(),
        ensures
            final(self)@.wf(),
            removed == old(self)@.teardown_due(room_id@, now),
            final(self)@ == if removed {
                old(self)@.without_room(room_id@)
            } else {
                old(self)@
            },
    {
        let room_key = room_id.bytes();
        let room = match rooms_read(&self.rooms, &room_key) {
            None => {
                return false;
            },
            Some(room) => room,
        };
        if !room.is_due(now) {
            return false;
        }
        proof {
            lemma_without_room_keeps_wf(self@, room_id@);
        }
        rooms_remove(&mut self.rooms, &room_key);
        true
    }

    /// The message that throws the user `id` out: a close frame with the
    /// `Protocol` status, to be put into that user's outbox.
    pub fn kick_user(&self, id: Id) -> (kicked: Result<WebSocketMessage, WebSocketStateError>)
        ensures
            kicked is Ok <==> self@.users.contains_key(id@),
            kicked matches Err(error) ==> error == WebSocketStateError::NoUser,
            kicked matches Ok(message) ==> message matches WebSocketMessage::Close(Some(frame))
                && frame.code == CloseCode::Protocol && frame.reason@ == "Test"@,
    {
        match users_read(&self.users, &id.bytes()) {
            None => Err(WebSocketStateError::NoUser),
            Some(_) => Ok(
                WebSocketMessage::Close(
                    Some(CloseFrame { code: CloseCode::Protocol, reason: "Test".to_owned() }),
                ),
            ),
        }
    }

    /// Files a verified owner claim under the ticket `id` until
    /// `CHECKED_AUTH_EXPIRATION` after `now`. Where the identifier is
    /// already that of a ticket, that ticket stays as it is.
    pub fn add_checked_auth_as(&mut self, owner_auth: OwnerAuth, id: Id, now: u128) -> (ticket: Id)
        requires
            old(self)@.wf(),
        ensures
            final(self)@.wf(),
            ticket@ == id@,
            final(self)@ == old(self)@.with_ticket(
                id@,
                owner_auth@,
                deadline(now, CHECKED_AUTH_EXPIRATION),
            ),
    {
        let expires_at: u128 = deadline_after(now, CHECKED_AUTH_EXPIRATION);
        tickets_insert(&mut self.checked_auth_ids, id.bytes(), owner_auth, expires_at);
        id
    }

    /// Files a verified owner claim under a fresh ticket that expires
    /// `CHECKED_AUTH_EXPIRATION` from now, and returns the ticket.
    pub fn add_checked_auth(&mut self, owner_auth: OwnerAuth) -> (ticket: Id)
        requires
            old(self)@.wf(),
        ensures
            final(self)@.wf(),
            exists|now: u128|
                final(self)@ == #[trigger] old(self)@.with_ticket(
                    ticket@,
                    owner_auth@,
                    deadline(now, CHECKED_AUTH_EXPIRATION),
                ),
    {
        let id = self.new_ticket_id();
        let now: u128 = get_elapsed_milis();
        self.add_checked_auth_as(owner_auth, id, now)
    }

    /// Consumes the ticket `id` for a request from `ip_addr` with
    /// `user_agent` when the clock reads `now`: the ticket is removed, and
    /// its claim handed out, if and only if it exists and its claim holds
    /// for that request. A ticket that is refused stays.
    pub fn remove_checked_auth_at(
        &mut self,
        id: Id,
        ip_addr: &String,
        user_agent: &String,
        now: u128,
    ) -> (owner: Result<OwnerAuth, WebSocketStateError>)
        requires
            old(self)@.wf(),
        ensures
            final(self)@.wf(),
            owner is Ok <==> old(self)@.consumable(id@, ip_addr@, user_agent@, now),
            match owner {
                Ok(claim) => claim@ == old(self)@.tickets[id@].0 && final(self)@ == old(
                    self,
                )@.without_ticket(id@),
                Err(error) => error == WebSocketStateError::NoOwner && final(self)@ == old(self)@,
            },
    {
        match tickets_remove_if_valid(
            &mut self.checked_auth_ids,
            &id.bytes(),
            ip_addr,
            user_agent,
            now,
        ) {
            Some(claim) => Ok(claim),
            None => Err(WebSocketStateError::NoOwner),
        }
    }

    /// Consumes the ticket `id` for a request from `ip_addr` with
    /// `user_agent` at the current clock reading: the ticket is removed,
    /// and its claim handed out, if and only if it exists and its claim
    /// holds for that request. A ticket that is refused stays.
    pub fn remove_checked_auth(&mut self, id: Id, ip_addr: &String, user_agent: &String) -> (owner:
        Result<OwnerAuth, WebSocketStateError>)
        requires
            old(self)@.wf(),
        ensures
            final(self)@.wf(),
            exists|now: u128|
                owner is Ok <==> #[trigger] old(self)@.consumable(id@, ip_addr@, user_agent@, now),
            match owner {
                Ok(claim) => claim@ == old(self)@.tickets[id@].0 && final(self)@ == old(
                    self,
                )@.without_ticket(id@),
                Err(error) => error == WebSocketStateError::NoOwner && final(self)@ == old(self)@,
            },
    {
        let now: u128 = get_elapsed_milis();
        self.remove_checked_auth_at(id, ip_addr, user_agent, now)
    }

    /// The sweep at `now`: every ticket that expires at `now` or earlier is
    /// dropped; the others stay as they are.
    pub fn update_checked_auths_at(&mut self, now: u128)
        requires
            old(self)@.wf(),
        ensures
            final(self)@.wf(),
            final(self)@ == old(self)@.swept(now),
    {
        tickets_retain_outliving(&mut self.checked_auth_ids, now);
        assert(self@.tickets =~= old(self)@.swept(now).tickets);
    }

    /// The sweep at the current clock reading.
    pub fn update_checked_auths(&mut self)
        requires
            old(self)@.wf(),
        ensures
            final(self)@.wf(),
            exists|now: u128| final(self)@ == #[trigger] old(self)@.swept(now),
    {
        let now: u128 = get_elapsed_milis();
        self.update_checked_auths_at(now);
    }
}

impl WsState {
    /// One turn of the receive activity of the connection `user_id`, on
    /// what its socket produced when the clock read `now`. The frame is
    /// handled against the playback state of the room the user sits in, as
    /// `recv_reaction` says, and that state is written back. For an
    /// identifier that no user holds the activity stops and nothing changes.
    pub fn recv(&mut self, user_id: Id, task: &mut RecvTask, incoming: Incoming, now: u128) -> (step:
        RecvStep)
        requires
            old(self)@.wf(),
        ensures
            final(self)@.wf(),
            !old(self)@.users.contains_key(user_id@) ==> {
                &&& step@ == RecvStepView::Stop
                &&& final(self)@ == old(self)@
                &&& final(task)@ == old(task)@
            },
            old(self)@.users.contains_key(user_id@) ==> ({
                let user = old(self)@.users[user_id@];
                let room = old(self)@.rooms[user.room_id];
                let reaction = recv_reaction(old(task)@, incoming@, room.data, user.permission, now);
                &&& step@ == reaction.step
                &&& final(task)@ == reaction.missed_pings
                &&& final(self)@ == old(self)@.with_data(user.room_id, reaction.video)
            }),
    {
        let user = match users_read(&self.users, &user_id.bytes()) {
            None => {
                return RecvStep::Stop;
            },
            Some(user) => user,
        };
        let room_key = user.room_id.bytes();
        let mut room = match rooms_read(&self.rooms, &room_key) {
            None => {
                return vstd::pervasive::unreached();
            },
            Some(room) => room,
        };
        let step = task.recv_task(incoming, &mut room.data, user.permission, now);
        proof {
            lemma_with_data_keeps_wf(self@, user@.room_id, room@.data);
        }
        rooms_remove(&mut self.rooms, &room_key);
        rooms_insert(&mut self.rooms, room_key, room);
        assert(self@.rooms =~= old(self)@.with_data(user@.room_id, room@.data).rooms);
        step
    }
}

/// A ticket is consumed at most once: once its claim was handed out the
/// ticket is gone, it cannot be consumed again by any request at any time,
/// and neither a sweep nor the filing of other tickets brings it back.
pub proof fn lemma_ticket_consumed_once(
    before: WsView,
    id: Seq<u8>,
    ip_addr: Seq<char>,
    user_agent: Seq<char>,
    now: u128,
)
    ensures
        !before.without_ticket(id).consumable(id, ip_addr, user_agent, now),
        !before.without_ticket(id).swept(now).consumable(id, ip_addr, user_agent, now),
        forall|other: Seq<u8>, claim: OwnerAuthView, expires_at: u128|
            other != id ==> !(#[trigger] before.without_ticket(id).with_ticket(
                other,
                claim,
                expires_at,
            )).consumable(id, ip_addr, user_agent, now),
{
}

/// A join of a room that does not exist is refused as such, whatever the
/// identifier drawn for the connection, and a join that is refused leaves
/// every counter as it was.
pub proof fn lemma_join_of_missing_room(ws: WsView, room_id: Seq<u8>, user_id: Seq<u8>)
    requires
        !ws.rooms.contains_key(room_id),
    ensures
        ws.join_refusal(room_id, user_id) == Some(WebSocketStateError::NoRoom),
{
}

/// A join of a room with a free seat under an identifier that no user
/// holds is not refused; it seats the connection: the room has one free
/// seat less and exactly one connection more, the one that joined, and
/// every other room keeps its seats and its connections.
pub proof fn lemma_join_seats_one(ws: WsView, user: UserView)
    requires
        ws.wf(),
        ws.rooms.contains_key(user.room_id),
        ws.rooms[user.room_id].remaining_users > 0,
        !ws.users.contains_key(user.id),
    ensures
        ws.join_refusal(user.room_id, user.id) is None,
        ws.joined(user).wf(),
        ws.joined(user).rooms[user.room_id].remaining_users
            == ws.rooms[user.room_id].remaining_users - 1,
        ws.joined(user).rooms[user.room_id].seated() == ws.rooms[user.room_id].seated() + 1,
        ws.joined(user).attached(user.room_id) == ws.attached(user.room_id).insert(user.id),
        ws.joined(user).attached(user.room_id).len() == ws.attached(user.room_id).len() + 1,
        !ws.attached(user.room_id).contains(user.id),
        forall|other: Seq<u8>|
            other != user.room_id ==> {
                &&& ws.joined(user).rooms.contains_key(other) <==> ws.rooms.contains_key(other)
                &&& #[trigger] ws.joined(user).rooms[other] == ws.rooms[other]
                &&& ws.joined(user).attached(other) == ws.attached(other)
            },
{
    let after = ws.joined(user);
    lemma_joined_keeps_wf(ws, user);
    lemma_attached_finite(ws.users, user.room_id);
    lemma_attached_insert(ws.users, user, user.room_id);
    assert(after.attached(user.room_id) =~= ws.attached(user.room_id).insert(user.id));
    assert forall|other: Seq<u8>| other != user.room_id implies {
        &&& after.rooms.contains_key(other) <==> ws.rooms.contains_key(other)
        &&& #[trigger] after.rooms[other] == ws.rooms[other]
        &&& after.attached(other) == ws.attached(other)
    } by {
        assert(after.attached(other) =~= ws.attached(other));
    }
}

/// A room is removed by the check after its grace period if, and only if,
/// it is empty and was emptied at least `CLIENT_TIMEOUT` before: a room in
/// which a connection sits is never removed, a room that a leave emptied at
/// `emptied_at` is removed by a check at `emptied_at + CLIENT_TIMEOUT` or
/// later and by none before, and a join in between calls the removal off.
pub proof fn lemma_teardown_after_grace(
    ws: WsView,
    user_id: Seq<u8>,
    joiner: UserView,
    emptied_at: u128,
    now: u128,
)
    requires
        ws.wf(),
        ws.users.contains_key(user_id),
        ws.rooms[ws.users[user_id].room_id].seated() == 1,
        joiner.room_id == ws.users[user_id].room_id,
    ensures
        ({
            let room_id = ws.users[user_id].room_id;
            let emptied = ws.left(user_id, emptied_at);
            &&& !ws.teardown_due(room_id, now)
            &&& emptied.teardown_due(room_id, now) <==> now >= emptied_at && now - emptied_at
                >= crate::ws_handler::CLIENT_TIMEOUT
            &&& emptied.rooms[room_id].max_users > 0 ==> !emptied.joined(joiner).teardown_due(
                room_id,
                now,
            )
        }),
{
}

} // verus!
