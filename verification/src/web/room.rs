//! What the HTTP endpoints decide: creating a room, looking one up for a
//! client that wants to join, and the hand-over of an owner claim from the
//! HTTP layer to the WebSocket layer through a checked-auth ticket.

use vstd::prelude::*;
use vstd::string::StringExecFns;

use crate::basic_auth::{
    deadline, deadline_after, OwnerAuth, OwnerAuthView, CHECKED_AUTH_EXPIRATION, EXPIRATION,
};
use crate::common::nanoid::{id_text, NanoId};
use crate::common::text::{chars_of, replace_all, replaced, string_of};
use crate::common::utils::get_elapsed_milis;
use crate::common::Id;
use crate::ws_handler::room_state::RoomView;
use crate::ws_handler::ws_state::{
    lemma_with_room_keeps_wf, WebSocketStateError, WsState, WsView, DEFAULT_WS, MAX_USERS,
};
use crate::ws_handler::{
    PlayerType, VideoData, VideoView, PERMISSION_CONTROLLABLE, PERMISSION_RESTRICTED, PLAYER_MAX,
    STATE_PAUSE,
};

verus! {

/// The request to create a room.
pub struct CreateRoomPayload {
    pub name: String,
    pub creator_name: String,
    pub video_url: String,
    pub cc_url: String,
    pub max_users: i32,
    pub global_control: bool,
    pub player_index: PlayerType,
}

/// Why a room was not created.
#[derive(Clone, Copy, Debug, PartialEq, Eq, Structural)]
pub enum CreateRoomError {
    /// The player index is above `PLAYER_MAX`.
    PlayerIndexOutOfBounds,
    /// More seats were asked for than a room can have.
    MaxUserExceeded,
}

impl CreateRoomError {
    /// The sentence shown to the client.
    pub fn message(&self) -> (text: &'static str)
        ensures
            text@ == match *self {
                CreateRoomError::PlayerIndexOutOfBounds => "Player Index out of bounds."@,
                CreateRoomError::MaxUserExceeded => "Max user exceeded!"@,
            },
    {
        match self {
            CreateRoomError::PlayerIndexOutOfBounds => "Player Index out of bounds.",
            CreateRoomError::MaxUserExceeded => "Max user exceeded!",
        }
    }
}

/// A room that was created: what the client is told, and the claim of its
/// owner, to be signed and handed to the client as a cookie.
pub struct CreatedRoom {
    pub id: Id,
    pub ws_path: String,
    pub owner: OwnerAuth,
}

/// The number of seats asked for: the magnitude of the number given.
pub open spec fn seats_asked(max_users: i32) -> int {
    if max_users >= 0 {
        max_users as int
    } else {
        -max_users
    }
}

/// The magnitude of a number.
fn magnitude(value: i32) -> (size: u32)
    ensures
        size == seats_asked(value),
{
    if value >= 0 {
        value as u32
    } else if value == i32::MIN {
        2_147_483_648
    } else {
        (-value) as u32
    }
}

/// The playback state a new room starts with.
pub open spec fn initial_video(payload: CreateRoomPayload, now: u128) -> VideoView {
    VideoView {
        last_time_updated: now,
        time: 0,
        url: payload.video_url@,
        cc_url: payload.cc_url@,
        state: STATE_PAUSE,
        permission: if payload.global_control {
            PERMISSION_CONTROLLABLE
        } else {
            PERMISSION_RESTRICTED
        },
        current_player: payload.player_index,
    }
}

/// The room that a request asks for, under the identifier `room_id`, as it
/// is when it was created at `now`.
pub open spec fn requested_room(payload: CreateRoomPayload, room_id: Seq<u8>, now: u128) -> RoomView {
    RoomView::fresh(
        initial_video(payload, now),
        room_id,
        payload.name@,
        seats_asked(payload.max_users) as u32,
    )
}

/// The claim of the creator of the room `room_id`, for a request from
/// `ip_addr` with `user_agent` that arrived at `now`.
pub open spec fn creator_claim(
    payload: CreateRoomPayload,
    room_id: Seq<u8>,
    ip_addr: Seq<char>,
    user_agent: Seq<char>,
    now: u128,
) -> OwnerAuthView {
    OwnerAuthView {
        username: payload.creator_name@,
        room_id,
        ip_addr,
        user_agent,
        sub: "sturdy@spoon.com"@,
        company: "STURDY_SPOON"@,
        exp: deadline(now, EXPIRATION),
    }
}

/// Why a request to create a room is refused, if it is.
pub open spec fn create_refusal(payload: CreateRoomPayload) -> Option<CreateRoomError> {
    if payload.player_index > PLAYER_MAX {
        Some(CreateRoomError::PlayerIndexOutOfBounds)
    } else if seats_asked(payload.max_users) > MAX_USERS {
        Some(CreateRoomError::MaxUserExceeded)
    } else {
        None
    }
}

/// A request that is not refused opens its room under an identifier that
/// no room holds: the room is there with every seat it asked for free,
/// paused at position zero, restricted unless the request asks for global
/// control, and every other room stays as it is. The claim of the creator
/// names creator, room, address and user agent and expires `EXPIRATION`
/// after the request.
pub proof fn lemma_create_opens_room(
    ws: WsView,
    payload: CreateRoomPayload,
    room_id: Seq<u8>,
    ip_addr: Seq<char>,
    user_agent: Seq<char>,
    now: u128,
)
    requires
        ws.wf(),
        create_refusal(payload) is None,
        !ws.rooms.contains_key(room_id),
    ensures
        ({
            let after = ws.with_room(requested_room(payload, room_id, now));
            let room = after.rooms[room_id];
            let claim = creator_claim(payload, room_id, ip_addr, user_agent, now);
            &&& after.wf()
            &&& after.rooms.contains_key(room_id)
            &&& room.id == room_id
            &&& room.name == payload.name@
            &&& room.max_users == seats_asked(payload.max_users)
            &&& room.remaining_users == seats_asked(payload.max_users)
            &&& room.data.time == 0
            &&& room.data.state == STATE_PAUSE
            &&& room.data.url == payload.video_url@
            &&& room.data.cc_url == payload.cc_url@
            &&& room.data.current_player == payload.player_index
            &&& room.data.permission == if payload.global_control {
                PERMISSION_CONTROLLABLE
            } else {
                PERMISSION_RESTRICTED
            }
            &&& after.attached(room_id).len() == 0
            &&& after.rooms.dom() == ws.rooms.dom().insert(room_id)
            &&& forall|other: Seq<u8>| #[trigger]
                ws.rooms.contains_key(other) ==> after.rooms[other] == ws.rooms[other]
            &&& claim.username == payload.creator_name@
            &&& claim.room_id == room_id
            &&& claim.ip_addr == ip_addr
            &&& claim.user_agent == user_agent
            &&& now + EXPIRATION <= u128::MAX ==> claim.exp == now + EXPIRATION
            &&& claim.is_valid_room_id(ip_addr, user_agent, room_id, now)
        }),
{
    let after = ws.with_room(requested_room(payload, room_id, now));
    lemma_with_room_keeps_wf(ws, requested_room(payload, room_id, now));
    assert(after.rooms.contains_key(room_id));
    assert(after.rooms.dom() =~= ws.rooms.dom().insert(room_id));
}

/// Creates a room for a request from `ip_addr` with `user_agent` that
/// arrived when the clock read `now`, under the identifier `room_id`.
///
/// A player index above `PLAYER_MAX` and more seats than `MAX_USERS` are
/// refused, in this order, and leave the registry as it was. Otherwise the
/// room starts paused at position zero with every seat free, controllable
/// by everyone if the request asks for it. The owner claim names the
/// creator, the room, the address and the user agent and expires
/// `EXPIRATION` after `now`.
pub fn create_as(
    ws_state: &mut WsState,
    payload: CreateRoomPayload,
    ip_addr: String,
    user_agent: String,
    room_id: Id,
    now: u128,
) -> (created: Result<CreatedRoom, CreateRoomError>)
    requires
        old(ws_state)@.wf(),
    ensures
        final(ws_state)@.wf(),
        match created {
            Err(error) => create_refusal(payload) == Some(error) && final(ws_state)@ == old(
                ws_state,
            )@,
            Ok(room) => {
                &&& create_refusal(payload) is None
                &&& room.id@ == room_id@
                &&& room.ws_path@ == DEFAULT_WS@
                &&& room.owner@ == creator_claim(payload, room_id@, ip_addr@, user_agent@, now)
                &&& final(ws_state)@ == old(ws_state)@.with_room(
                    requested_room(payload, room_id@, now),
                )
            },
        },
{
    if payload.player_index > PLAYER_MAX {
        return Err(CreateRoomError::PlayerIndexOutOfBounds);
    }
    let mut data = VideoData::new_at(payload.video_url, payload.cc_url, payload.player_index, now);
    if payload.global_control {
        data.set_permission(PERMISSION_CONTROLLABLE);
        assert(PERMISSION_RESTRICTED | PERMISSION_CONTROLLABLE == PERMISSION_CONTROLLABLE)
            by (bit_vector);
    }
    let max_users: u32 = magnitude(payload.max_users);
    let (id, ws_path) = match ws_state.create_room_as(data, payload.name, max_users, room_id) {
        Err(_) => {
            return Err(CreateRoomError::MaxUserExceeded);
        },
        Ok(created) => created,
    };
    let expires: u128 = deadline_after(now, EXPIRATION);
    let owner = OwnerAuth::new(payload.creator_name, id, ip_addr, user_agent, expires);
    Ok(CreatedRoom { id, ws_path, owner })
}

/// Creates a room for a request from `ip_addr` with `user_agent`, under a
/// fresh identifier and at the current clock reading. A player index above
/// `PLAYER_MAX` and more seats than `MAX_USERS` are refused, in this
/// order, and leave the registry as it was.
pub fn create(
    ws_state: &mut WsState,
    payload: CreateRoomPayload,
    ip_addr: String,
    user_agent: String,
) -> (created: Result<CreatedRoom, CreateRoomError>)
    requires
        old(ws_state)@.wf(),
    ensures
        final(ws_state)@.wf(),
        match created {
            Err(error) => create_refusal(payload) == Some(error) && final(ws_state)@ == old(
                ws_state,
            )@,
            Ok(room) => {
                &&& create_refusal(payload) is None
                &&& room.ws_path@ == DEFAULT_WS@
                &&& exists|now: u128|
                    room.owner@ == #[trigger] creator_claim(
                        payload,
                        room.id@,
                        ip_addr@,
                        user_agent@,
                        now,
                    ) && final(ws_state)@ == old(ws_state)@.with_room(
                        requested_room(payload, room.id@, now),
                    )
            },
        },
{
    let room_id = ws_state.new_room_id();
    let now: u128 = get_elapsed_milis();
    create_as(ws_state, payload, ip_addr, user_agent, room_id, now)
}

/// There is a claim, and it holds for a request from `ip_addr` with
/// `user_agent` at `now` and names `room_id`.
pub open spec fn claim_holds(
    claim: Option<OwnerAuth>,
    ip_addr: Seq<char>,
    user_agent: Seq<char>,
    room_id: Seq<u8>,
    now: u128,
) -> bool {
    match claim {
        Some(auth) => auth@.is_valid_room_id(ip_addr, user_agent, room_id, now),
        None => false,
    }
}

/// There is a cookie, it is the textual form of an identifier, that
/// identifier names a ticket, and the claim of the ticket holds for a
/// request from `ip_addr` with `user_agent` at `now`.
pub open spec fn ticket_holds(
    ws: WsView,
    cookie: Option<&str>,
    ip_addr: Seq<char>,
    user_agent: Seq<char>,
    now: u128,
) -> bool {
    match cookie {
        Some(text) => {
            let id = vstd::utf8::encode_utf8(text@);
            id.len() == 16 && ws.consumable(id, ip_addr, user_agent, now)
        },
        None => false,
    }
}

/// The hand-over of an owner claim at `now`: `claim` is what the owner
/// cookie of the request verified to, if it carried one. A claim that
/// holds for a request from `ip_addr` with `user_agent` and names `room_id`
/// is filed under the ticket `ticket`, which is returned; any other claim,
/// and a request without one, files nothing.
pub fn validate_cookie_as(
    ws_state: &mut WsState,
    claim: Option<OwnerAuth>,
    ip_addr: &String,
    user_agent: &String,
    room_id: &Id,
    ticket: Id,
    now: u128,
) -> (filed: Option<Id>)
    requires
        old(ws_state)@.wf(),
    ensures
        final(ws_state)@.wf(),
        filed is Some <==> claim_holds(claim, ip_addr@, user_agent@, room_id@, now),
        match filed {
            None => final(ws_state)@ == old(ws_state)@,
            Some(id) => id@ == ticket@ && final(ws_state)@ == old(ws_state)@.with_ticket(
                ticket@,
                claim->0@,
                deadline(now, CHECKED_AUTH_EXPIRATION),
            ),
        },
{
    let auth = match claim {
        None => {
            return None;
        },
        Some(auth) => auth,
    };
    if !auth.is_valid_room_id_at(ip_addr, user_agent, room_id, now) {
        return None;
    }
    Some(ws_state.add_checked_auth_as(auth, ticket, now))
}

/// The hand-over of an owner claim under a fresh ticket, at the current
/// clock reading. Answers the ticket if the claim was filed. A request
/// without a claim, or with a claim bound to another address, user agent
/// or room, files nothing.
pub fn validate_cookie(
    ws_state: &mut WsState,
    claim: Option<OwnerAuth>,
    ip_addr: &String,
    user_agent: &String,
    room_id: &Id,
) -> (filed: Option<Id>)
    requires
        old(ws_state)@.wf(),
    ensures
        final(ws_state)@.wf(),
        filed is None ==> final(ws_state)@ == old(ws_state)@,
        exists|now: u128|
            (filed is Some) == #[trigger] claim_holds(claim, ip_addr@, user_agent@, room_id@, now)
                && (filed matches Some(id) ==> final(ws_state)@ == old(ws_state)@.with_ticket(
                id@,
                claim->0@,
                deadline(now, CHECKED_AUTH_EXPIRATION),
            )),
{
    let ticket = ws_state.new_ticket_id();
    let now: u128 = get_elapsed_milis();
    validate_cookie_as(ws_state, claim, ip_addr, user_agent, room_id, ticket, now)
}

/// What a client that wants to join a room is told.
pub struct JoinUser {
    pub room_id: Id,
    pub name: String,
    pub ws_path: String,
    /// Whether the client owns the room and may connect without a
    /// `join_room` packet.
    pub auto_connect: bool,
}

/// Looks the room `room_id` up for a request from `ip_addr` with
/// `user_agent` at `now` and hands its owner claim over, if it has one
/// that holds. A room that does not exist or has no free seat is refused
/// and nothing is filed. Returns what the client is told and the ticket,
/// if one was filed.
pub fn join_as(
    ws_state: &mut WsState,
    room_id: Id,
    claim: Option<OwnerAuth>,
    ip_addr: &String,
    user_agent: &String,
    ticket: Id,
    now: u128,
) -> (found: Result<(JoinUser, Option<Id>), WebSocketStateError>)
    requires
        old(ws_state)@.wf(),
    ensures
        final(ws_state)@.wf(),
        match found {
            Err(error) => {
                &&& final(ws_state)@ == old(ws_state)@
                &&& error == if !old(ws_state)@.rooms.contains_key(room_id@) {
                    WebSocketStateError::NoRoom
                } else {
                    WebSocketStateError::RoomFull
                }
                &&& !old(ws_state)@.rooms.contains_key(room_id@) || old(
                    ws_state,
                )@.rooms[room_id@].is_full()
            },
            Ok((user, filed)) => {
                &&& old(ws_state)@.rooms.contains_key(room_id@)
                &&& !old(ws_state)@.rooms[room_id@].is_full()
                &&& user.room_id@ == room_id@
                &&& user.name@ == old(ws_state)@.rooms[room_id@].name
                &&& user.ws_path@ == DEFAULT_WS@
                &&& user.auto_connect == filed is Some
                &&& filed is Some <==> claim_holds(claim, ip_addr@, user_agent@, room_id@, now)
                &&& filed matches Some(id) ==> id@ == ticket@
                &&& final(ws_state)@ == if filed is Some {
                    old(ws_state)@.with_ticket(
                        ticket@,
                        claim->0@,
                        deadline(now, CHECKED_AUTH_EXPIRATION),
                    )
                } else {
                    old(ws_state)@
                }
            },
        },
{
    let (id, name, ws_path) = match ws_state.verify_room(room_id) {
        Err(error) => {
            return Err(error);
        },
        Ok(found) => found,
    };
    let filed = validate_cookie_as(ws_state, claim, ip_addr, user_agent, &id, ticket, now);
    let auto_connect: bool = filed.is_some();
    Ok((JoinUser { room_id: id, name, ws_path, auto_connect }, filed))
}

/// Looks the room `room_id` up for a request from `ip_addr` with
/// `user_agent` and hands its owner claim over, if it has one that holds,
/// under a fresh ticket and at the current clock reading. A room that does
/// not exist or has no free seat is refused and nothing is filed. Returns
/// what the client is told and the ticket, if one was filed.
pub fn join(
    ws_state: &mut WsState,
    room_id: Id,
    claim: Option<OwnerAuth>,
    ip_addr: &String,
    user_agent: &String,
) -> (found: Result<(JoinUser, Option<Id>), WebSocketStateError>)
    requires
        old(ws_state)@.wf(),
    ensures
        final(ws_state)@.wf(),
        match found {
            Err(error) => {
                &&& final(ws_state)@ == old(ws_state)@
                &&& error == if !old(ws_state)@.rooms.contains_key(room_id@) {
                    WebSocketStateError::NoRoom
                } else {
                    WebSocketStateError::RoomFull
                }
                &&& !old(ws_state)@.rooms.contains_key(room_id@) || old(
                    ws_state,
                )@.rooms[room_id@].is_full()
            },
            Ok((user, filed)) => {
                &&& old(ws_state)@.rooms.contains_key(room_id@)
                &&& !old(ws_state)@.rooms[room_id@].is_full()
                &&& user.room_id@ == room_id@
                &&& user.name@ == old(ws_state)@.rooms[room_id@].name
                &&& user.ws_path@ == DEFAULT_WS@
                &&& user.auto_connect == filed is Some
                &&& filed is None ==> final(ws_state)@ == old(ws_state)@
                &&& exists|now: u128|
                    (filed is Some) == #[trigger] claim_holds(
                        claim,
                        ip_addr@,
                        user_agent@,
                        room_id@,
                        now,
                    ) && (filed matches Some(id) ==> final(ws_state)@ == old(
                        ws_state,
                    )@.with_ticket(id@, claim->0@, deadline(now, CHECKED_AUTH_EXPIRATION)))
            },
        },
{
    let ticket = ws_state.new_ticket_id();
    let now: u128 = get_elapsed_milis();
    let found = join_as(ws_state, room_id, claim, ip_addr, user_agent, ticket, now);
    proof {
        if found is Ok {
            assert((found->Ok_0.1 is Some) == claim_holds(
                claim,
                ip_addr@,
                user_agent@,
                room_id@,
                now,
            ));
        }
    }
    found
}

/// The owner claim behind the checked-auth cookie of a WebSocket upgrade
/// from `ip_addr` with `user_agent` at `now`. The ticket is consumed, and
/// its claim returned, if and only if the cookie is there, is the textual
/// form of an identifier, names a ticket, and the claim of that ticket
/// holds for the request. In every other case nothing changes.
pub fn checked_owner_at(
    ws_state: &mut WsState,
    cookie: Option<&str>,
    ip_addr: &String,
    user_agent: &String,
    now: u128,
) -> (owner: Option<OwnerAuth>)
    requires
        old(ws_state)@.wf(),
    ensures
        final(ws_state)@.wf(),
        owner is Some <==> ticket_holds(old(ws_state)@, cookie, ip_addr@, user_agent@, now),
        match owner {
            None => final(ws_state)@ == old(ws_state)@,
            Some(claim) => {
                let id = vstd::utf8::encode_utf8(cookie->0@);
                &&& claim@ == old(ws_state)@.tickets[id].0
                &&& final(ws_state)@ == old(ws_state)@.without_ticket(id)
            },
        },
{
    let text = match cookie {
        None => {
            return None;
        },
        Some(text) => text,
    };
    let id = match NanoId::from_str(text) {
        Err(_) => {
            return None;
        },
        Ok(id) => id,
    };
    match ws_state.remove_checked_auth_at(id, ip_addr, user_agent, now) {
        Ok(claim) => Some(claim),
        Err(_) => None,
    }
}

/// The owner claim behind the checked-auth cookie of a WebSocket upgrade
/// from `ip_addr` with `user_agent`, at the current clock reading. A claim
/// is returned only if its ticket was consumed and it is bound to that
/// address and user agent.
pub fn checked_owner(
    ws_state: &mut WsState,
    cookie: Option<&str>,
    ip_addr: &String,
    user_agent: &String,
) -> (owner: Option<OwnerAuth>)
    requires
        old(ws_state)@.wf(),
    ensures
        final(ws_state)@.wf(),
        exists|now: u128|
            owner is Some <==> #[trigger] ticket_holds(
                old(ws_state)@,
                cookie,
                ip_addr@,
                user_agent@,
                now,
            ),
        match owner {
            None => final(ws_state)@ == old(ws_state)@,
            Some(claim) => {
                let id = vstd::utf8::encode_utf8(cookie->0@);
                &&& claim@ == old(ws_state)@.tickets[id].0
                &&& final(ws_state)@ == old(ws_state)@.without_ticket(id)
            },
        },
{
    let now: u128 = get_elapsed_milis();
    checked_owner_at(ws_state, cookie, ip_addr, user_agent, now)
}


/// The statement of the room page that is replaced by the room's data.
pub open spec fn room_data_slot() -> Seq<char> {
    "let room_data = null;"@
}

/// The statement of the room page that is replaced by the auto-connect
/// flag.
pub open spec fn auto_connect_slot() -> Seq<char> {
    "let autoConnect = false;"@
}

/// The script statement that hands the page the identifier, the name and
/// the WebSocket path of its room.
pub open spec fn room_data_script(room_id: Seq<char>, name: Seq<char>, ws_path: Seq<char>) -> Seq<
    char,
> {
    "let room_data = {\n                room_id: '"@ + room_id + "',\n                name: '"@
        + name + "',\n                ws_path: '"@ + ws_path
        + "'\n            };\n            "@
}

/// The script statement that tells the page whether to connect on its own.
pub open spec fn auto_connect_script(auto_connect: bool) -> Seq<char> {
    if auto_connect {
        "let autoConnect = true;"@
    } else {
        "let autoConnect = false;"@
    }
}

/// The room page for a client: the template with the room's data and the
/// auto-connect flag written into their slots.
pub open spec fn room_page(
    template: Seq<char>,
    room_id: Seq<char>,
    name: Seq<char>,
    ws_path: Seq<char>,
    auto_connect: bool,
) -> Seq<char> {
    replaced(
        replaced(template, room_data_slot(), room_data_script(room_id, name, ws_path)),
        auto_connect_slot(),
        auto_connect_script(auto_connect),
    )
}

/// Writes the room's data and the auto-connect flag into the template of
/// the room page.
pub fn render_room_page(template: &str, room_id: &Id, name: &str, ws_path: &str, auto_connect: bool) -> (page:
    String)
    ensures
        page@ == room_page(template@, id_text(room_id@), name@, ws_path@, auto_connect),
{
    let mut script = String::from_str("let room_data = {\n                room_id: '");
    script.append(room_id.to_string().as_str());
    script.append("',\n                name: '");
    script.append(name);
    script.append("',\n                ws_path: '");
    script.append(ws_path);
    script.append("'\n            };\n            ");
    let flag = if auto_connect {
        "let autoConnect = true;"
    } else {
        "let autoConnect = false;"
    };
    let with_data = replace_all(
        &chars_of(template),
        &chars_of("let room_data = null;"),
        &chars_of(script.as_str()),
    );
    let page = replace_all(&with_data, &chars_of("let autoConnect = false;"), &chars_of(flag));
    string_of(&page)
}

} // verus!
