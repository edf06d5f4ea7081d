//! The handshake that admits a connection to a room, as its owner or as a
//! guest.

use vstd::prelude::*;

use crate::basic_auth::OwnerAuth;
use crate::common::nanoid::{id_text, NanoId};
use crate::common::text::{chars_of, slice_chars, string_of, text_is};
use crate::common::utils::get_elapsed_milis;
use crate::common::Id;
use crate::sturdy_ws::ws_message::{CloseCode, CloseFrame, WebSocketMessage};
use crate::ws_handler::packet::{
    arg_fields, arg_separator, field_views, locate_parts, packet_parts, packet_text, split_args,
    StringPacket,
};
use crate::ws_handler::user_state::{
    packet_string, video_data_json, video_data_text, video_json, Audience, Incoming,
    IncomingView, Reply, ReplyView, UserState, UserView,
};
use crate::ws_handler::ws_state::{
    lemma_join_seats_one, WebSocketStateError, WsState, WsView,
};
use crate::ws_handler::{Permission, VideoData, PERMISSION_ALL};

verus! {

/// Why a connection was not admitted to a room.
#[derive(Clone, Copy, Debug, PartialEq, Eq, Structural)]
pub enum ValidationError {
    NoRoom,
    RoomFull,
    InvalidPacket,
}

impl ValidationError {
    /// What a refusal of the registry means for the handshake: a missing or
    /// full room is reported as such, anything else as an invalid packet.
    pub open spec fn of(error: WebSocketStateError) -> ValidationError {
        match error {
            WebSocketStateError::NoRoom => ValidationError::NoRoom,
            WebSocketStateError::RoomFull => ValidationError::RoomFull,
            _ => ValidationError::InvalidPacket,
        }
    }

    /// The sentence sent as the reason of the close frame.
    pub open spec fn reason(self) -> Seq<char> {
        match self {
            ValidationError::NoRoom => "The specified room doesn't exist."@,
            ValidationError::RoomFull => "The specified room is full."@,
            ValidationError::InvalidPacket => "Invalid packet structure."@,
        }
    }

    /// The sentence sent as the reason of the close frame.
    pub fn message(&self) -> (text: &'static str)
        ensures
            text@ == self.reason(),
    {
        match self {
            ValidationError::NoRoom => "The specified room doesn't exist.",
            ValidationError::RoomFull => "The specified room is full.",
            ValidationError::InvalidPacket => "Invalid packet structure.",
        }
    }

    /// The close frame that rejects the handshake: status `Error` with the
    /// sentence as its reason.
    pub fn into_close(self) -> (message: WebSocketMessage)
        ensures
            message matches WebSocketMessage::Close(Some(frame)) && frame.code == CloseCode::Error
                && frame.reason@ == self.reason(),
    {
        WebSocketMessage::Close(
            Some(CloseFrame { code: CloseCode::Error, reason: self.message().to_owned() }),
        )
    }
}

impl From<WebSocketStateError> for ValidationError {
    fn from(err: WebSocketStateError) -> (error: ValidationError)
        ensures
            error == ValidationError::of(err),
    {
        match err {
            WebSocketStateError::NoRoom => ValidationError::NoRoom,
            WebSocketStateError::RoomFull => ValidationError::RoomFull,
            _ => ValidationError::InvalidPacket,
        }
    }
}

impl vstd::std_specs::convert::FromSpecImpl<WebSocketStateError> for ValidationError {
    open spec fn obeys_from_spec() -> bool {
        true
    }

    open spec fn from_spec(err: WebSocketStateError) -> ValidationError {
        ValidationError::of(err)
    }
}

/// The room and the name that a `join_room <room_id>|.|<name>` packet asks
/// for, or nothing where the text is no such packet: it must be of type
/// `join_room`, carry at least two arguments, and the first must be the
/// textual form of an identifier.
pub open spec fn join_request(text: Seq<char>) -> Option<(Seq<u8>, Seq<char>)> {
    match packet_parts(text) {
        None => None,
        Some((kind, data)) => if kind == "join_room"@ && arg_fields(data).len() >= 2
            && vstd::utf8::encode_utf8(arg_fields(data)[0]).len() == 16 {
            Some((vstd::utf8::encode_utf8(arg_fields(data)[0]), arg_fields(data)[1]))
        } else {
            None
        },
    }
}

/// Reads a `join_room` packet.
pub fn parse_join_request(text: &str) -> (request: Option<(Id, String)>)
    ensures
        match request {
            None => join_request(text@) is None,
            Some((room_id, name)) => join_request(text@) == Some((room_id@, name@)),
        },
{
    let chars = chars_of(text);
    let (a, b, c, d) = match locate_parts(&chars) {
        None => {
            return None;
        },
        Some(ranges) => ranges,
    };
    let kind = slice_chars(&chars, a, b);
    if !text_is(&kind, "join_room") {
        return None;
    }
    let args = slice_chars(&chars, c, d);
    let fields = split_args(&args);
    if fields.len() < 2 {
        return None;
    }
    assert(field_views(fields@)[0] == fields@[0]@);
    assert(field_views(fields@)[1] == fields@[1]@);
    let room_text = string_of(&fields[0]);
    let name = string_of(&fields[1]);
    match NanoId::from_str(room_text.as_str()) {
        Err(_) => None,
        Ok(room_id) => Some((room_id, name)),
    }
}

/// What the guest handshake makes of the first frame of a connection, with
/// `user_id` as the identifier drawn for it.
///
/// * Anything but a well-formed `join_room` packet is an invalid packet.
/// * Otherwise the connection takes a seat in the room asked for, under the
///   name given and with the permission of the room; a refusal of the
///   registry is passed on as `ValidationError::of` says.
pub open spec fn guest_verdict(ws: WsView, first: IncomingView, user_id: Seq<u8>) -> Result<
    UserView,
    ValidationError,
> {
    match first {
        IncomingView::Text(text) => match join_request(text) {
            None => Err(ValidationError::InvalidPacket),
            Some((room_id, name)) => match ws.join_refusal(room_id, user_id) {
                Some(error) => Err(ValidationError::of(error)),
                None => Ok(
                    UserView {
                        id: user_id,
                        room_id,
                        name,
                        permission: ws.rooms[room_id].data.permission,
                    },
                ),
            },
        },
        _ => Err(ValidationError::InvalidPacket),
    }
}

/// The guest handshake on the first frame of a connection, with `user_id`
/// as the identifier drawn for it. A connection that is refused leaves the
/// registry as it was.
pub fn verify_join_msg_as(ws_state: &mut WsState, msg: Incoming, user_id: Id) -> (joined: Result<
    UserState,
    ValidationError,
>)
    requires
        old(ws_state)@.wf(),
    ensures
        final(ws_state)@.wf(),
        match joined {
            Ok(user) => guest_verdict(old(ws_state)@, msg@, user_id@) == Ok::<
                UserView,
                ValidationError,
            >(user@) && final(ws_state)@ == old(ws_state)@.joined(user@),
            Err(error) => guest_verdict(old(ws_state)@, msg@, user_id@) == Err::<
                UserView,
                ValidationError,
            >(error) && final(ws_state)@ == old(ws_state)@,
        },
{
    match msg {
        Incoming::Text(text) => {
            let (room_id, name) = match parse_join_request(text.as_str()) {
                None => {
                    return Err(ValidationError::InvalidPacket);
                },
                Some(request) => request,
            };
            match ws_state.join_room_as(room_id, user_id, name, None) {
                Ok(user) => Ok(user),
                Err(error) => Err(ValidationError::from(error)),
            }
        },
        _ => Err(ValidationError::InvalidPacket),
    }
}

/// The guest handshake on the first frame of a connection, under a fresh
/// identifier. A connection that is refused leaves the registry as it was.
pub fn verify_join_msg(ws_state: &mut WsState, msg: Incoming) -> (joined: Result<
    UserState,
    ValidationError,
>)
    requires
        old(ws_state)@.wf(),
    ensures
        final(ws_state)@.wf(),
        match joined {
            Ok(user) => guest_verdict(old(ws_state)@, msg@, user@.id) == Ok::<
                UserView,
                ValidationError,
            >(user@) && final(ws_state)@ == old(ws_state)@.joined(user@),
            Err(error) => final(ws_state)@ == old(ws_state)@ && exists|user_id: Seq<u8>|
                #[trigger] guest_verdict(old(ws_state)@, msg@, user_id) == Err::<
                    UserView,
                    ValidationError,
                >(error),
        },
{
    let user_id = ws_state.new_user_id();
    verify_join_msg_as(ws_state, msg, user_id)
}

/// The `joined` packet that tells a room about a new user:
/// `joined <name>|.|<user_id>`, whatever the name holds.
pub open spec fn joined_text(user: UserView) -> Seq<char> {
    packet_text("joined"@, user.name + arg_separator() + id_text(user.id))
}

/// The `left` packet that tells a room that a user has gone:
/// `left <name>|.|<user_id>`, whatever the name holds.
pub open spec fn left_text(user: UserView) -> Seq<char> {
    packet_text("left"@, user.name + arg_separator() + id_text(user.id))
}

/// The broadcast that tells a room about a new user.
pub fn joined_packet(user: &UserState) -> (reply: Reply)
    ensures
        reply@ == (ReplyView { audience: Audience::Room, text: joined_text(user@) }),
{
    let id = user.id.to_string();
    let packet = StringPacket::new("joined").arg(user.name.as_str()).arg(id.as_str());
    Reply { audience: Audience::Room, text: packet.into_string() }
}

/// The broadcast that tells a room that a user has gone.
pub fn left_packet(user: &UserState) -> (reply: Reply)
    ensures
        reply@ == (ReplyView { audience: Audience::Room, text: left_text(user@) }),
{
    let id = user.id.to_string();
    let packet = StringPacket::new("left").arg(user.name.as_str()).arg(id.as_str());
    Reply { audience: Audience::Room, text: packet.into_string() }
}

/// The direct message that hands a connection the playback state of its
/// room as it stands when the clock reads `now`.
pub fn snapshot_packet(data: &VideoData, permission: Permission, now: u128) -> (reply: Reply)
    requires
        data@.wf(),
    ensures
        reply@ == (ReplyView {
            audience: Audience::Sender,
            text: video_data_text(video_json(data@, permission@, now)),
        }),
{
    let json = video_data_json(data, permission.bits(), now);
    Reply { audience: Audience::Sender, text: packet_string("video_data", json.as_str()) }
}

/// The reason sent to a guest that the handshake refuses, if it refuses.
pub open spec fn rejection_reason(ws: WsView, first: IncomingView, user_id: Seq<u8>) -> Option<
    Seq<char>,
> {
    match guest_verdict(ws, first, user_id) {
        Ok(_) => None,
        Err(error) => Some(error.reason()),
    }
}

/// How a handshake ended.
pub enum Admission {
    /// The connection sits in a room. `announce` goes to the room, then
    /// `snapshot` to the connection, and the receive activity starts.
    Joined { user: UserState, announce: Reply, snapshot: Reply },
    /// The connection is refused with this close frame and then closed.
    Rejected(WebSocketMessage),
    /// The connection is dropped without a word.
    Dropped,
}

/// Who a handshake admits, if anyone, with `user_id` as the identifier
/// drawn for the connection.
///
/// * With a verified owner claim the connection takes a seat in the room
///   of the claim, under the owner's name and with every permission; the
///   first frame is not looked at.
/// * Without a claim, a connection that stayed silent or went away is not
///   admitted; any other goes through the guest handshake.
pub open spec fn admission_verdict(
    ws: WsView,
    owner: Option<OwnerAuth>,
    first: IncomingView,
    user_id: Seq<u8>,
) -> Option<UserView> {
    match owner {
        Some(claim) => if ws.join_refusal(claim@.room_id, user_id) is None {
            Some(
                UserView {
                    id: user_id,
                    room_id: claim@.room_id,
                    name: claim@.username,
                    permission: PERMISSION_ALL,
                },
            )
        } else {
            None
        },
        None => match guest_verdict(ws, first, user_id) {
            Ok(user) => if first is Timeout || first is Ended {
                None
            } else {
                Some(user)
            },
            Err(_) => None,
        },
    }
}

/// An owner claim seats its connection without a first frame: whatever
/// the socket produced, and also when it produced nothing, a claim on a
/// room with a free seat is admitted under an identifier that no user
/// holds, to the room of the claim, under the owner's name and with every
/// permission, and the room has one free seat less.
pub proof fn lemma_owner_is_seated(
    ws: WsView,
    claim: OwnerAuth,
    first: IncomingView,
    user_id: Seq<u8>,
)
    requires
        ws.wf(),
        ws.rooms.contains_key(claim@.room_id),
        ws.rooms[claim@.room_id].remaining_users > 0,
        !ws.users.contains_key(user_id),
    ensures
        ({
            let user = UserView {
                id: user_id,
                room_id: claim@.room_id,
                name: claim@.username,
                permission: PERMISSION_ALL,
            };
            &&& admission_verdict(ws, Some(claim), first, user_id) == Some(user)
            &&& ws.joined(user).wf()
            &&& ws.joined(user).users[user_id] == user
            &&& ws.joined(user).rooms[claim@.room_id].remaining_users
                == ws.rooms[claim@.room_id].remaining_users - 1
        }),
{
    let user = UserView {
        id: user_id,
        room_id: claim@.room_id,
        name: claim@.username,
        permission: PERMISSION_ALL,
    };
    lemma_join_seats_one(ws, user);
}

/// The handshake of a new connection when the clock reads `now`, with
/// `user_id` as the identifier drawn for it: `owner` is the claim consumed
/// from its checked-auth ticket, if it had one, and `first` what the first
/// wait on its socket produced.
///
/// A connection that is admitted is seated and registered; the room is to
/// be told and the connection handed a snapshot. An owner whose room cannot
/// seat it, and a guest that stayed silent or went away, are dropped
/// without a word. Any other guest that is refused gets a close frame with
/// status `Error` and the reason of the refusal. A connection that is not
/// admitted leaves the registry as it was.
pub fn validate_and_handle_client_as(
    ws_state: &mut WsState,
    owner: Option<OwnerAuth>,
    first: Incoming,
    user_id: Id,
    now: u128,
) -> (admission: Admission)
    requires
        old(ws_state)@.wf(),
    ensures
        final(ws_state)@.wf(),
        match admission {
            Admission::Joined { user, announce, snapshot } => {
                &&& admission_verdict(old(ws_state)@, owner, first@, user_id@) == Some(user@)
                &&& final(ws_state)@ == old(ws_state)@.joined(user@)
                &&& announce@ == (ReplyView { audience: Audience::Room, text: joined_text(user@) })
                &&& snapshot@ == (ReplyView {
                    audience: Audience::Sender,
                    text: video_data_text(
                        video_json(old(ws_state)@.rooms[user@.room_id].data, user@.permission, now),
                    ),
                })
            },
            Admission::Rejected(close) => {
                &&& owner is None
                &&& !(first@ is Timeout || first@ is Ended)
                &&& final(ws_state)@ == old(ws_state)@
                &&& guest_verdict(old(ws_state)@, first@, user_id@) matches Err(error)
                &&& close matches WebSocketMessage::Close(Some(frame))
                &&& frame.code == CloseCode::Error
                &&& frame.reason@ == error.reason()
            },
            Admission::Dropped => {
                &&& admission_verdict(old(ws_state)@, owner, first@, user_id@) is None
                &&& owner is None ==> first@ is Timeout || first@ is Ended
                &&& final(ws_state)@ == old(ws_state)@
            },
        },
{
    let joined = match owner {
        Some(claim) => {
            let room_id = claim.room_id;
            let name = claim.username.clone();
            match ws_state.join_room_as(
                room_id,
                user_id,
                name,
                Some(Permission::from_bits(PERMISSION_ALL)),
            ) {
                Ok(user) => user,
                Err(_) => {
                    return Admission::Dropped;
                },
            }
        },
        None => {
            match first {
                Incoming::Timeout => {
                    return Admission::Dropped;
                },
                Incoming::Ended => {
                    return Admission::Dropped;
                },
                _ => {},
            }
            match verify_join_msg_as(ws_state, first, user_id) {
                Ok(user) => user,
                Err(error) => {
                    return Admission::Rejected(error.into_close());
                },
            }
        },
    };
    let announce = joined_packet(&joined);
    let room = match ws_state.get_room(joined.room_id) {
        Ok(room) => room,
        Err(_) => {
            return vstd::pervasive::unreached();
        },
    };
    let snapshot = snapshot_packet(room.data(), joined.permission, now);
    Admission::Joined { user: joined, announce, snapshot }
}

/// The handshake of a new connection at the current clock reading, under a
/// fresh identifier: what `validate_and_handle_client_as` does for the
/// identifier that was drawn and the time that was read.
pub fn validate_and_handle_client(
    ws_state: &mut WsState,
    owner: Option<OwnerAuth>,
    first: Incoming,
) -> (admission: Admission)
    requires
        old(ws_state)@.wf(),
    ensures
        final(ws_state)@.wf(),
        match admission {
            Admission::Joined { user, announce, snapshot } => {
                &&& admission_verdict(old(ws_state)@, owner, first@, user@.id) == Some(user@)
                &&& final(ws_state)@ == old(ws_state)@.joined(user@)
                &&& announce@ == (ReplyView { audience: Audience::Room, text: joined_text(user@) })
                &&& snapshot@.audience == Audience::Sender
                &&& exists|now: u128|
                    snapshot@.text == video_data_text(
                        #[trigger] video_json(
                            old(ws_state)@.rooms[user@.room_id].data,
                            user@.permission,
                            now,
                        ),
                    )
            },
            Admission::Rejected(close) => {
                &&& owner is None
                &&& !(first@ is Timeout || first@ is Ended)
                &&& final(ws_state)@ == old(ws_state)@
                &&& close matches WebSocketMessage::Close(Some(frame))
                &&& frame.code == CloseCode::Error
                &&& exists|user_id: Seq<u8>|
                    Some(frame.reason@) == #[trigger] rejection_reason(
                        old(ws_state)@,
                        first@,
                        user_id,
                    )
            },
            Admission::Dropped => {
                &&& final(ws_state)@ == old(ws_state)@
                &&& owner is None ==> first@ is Timeout || first@ is Ended
                &&& exists|user_id: Seq<u8>| #[trigger]
                    admission_verdict(old(ws_state)@, owner, first@, user_id) is None
            },
        },
{
    let user_id = ws_state.new_user_id();
    let now: u128 = get_elapsed_milis();
    let admission = validate_and_handle_client_as(ws_state, owner, first, user_id, now);
    proof {
        let before = old(ws_state)@;
        match &admission {
            Admission::Joined { user, announce, snapshot } => {
                assert(snapshot@.text == video_data_text(
                    video_json(before.rooms[user@.room_id].data, user@.permission, now),
                ));
            },
            Admission::Rejected(_) => {
                assert(rejection_reason(before, first@, user_id@) is Some);
            },
            Admission::Dropped => {
                assert(admission_verdict(before, owner, first@, user_id@) is None);
            },
        }
    }
    admission
}

} // verus!
