//! The decisions a connection takes on every frame it receives and on
//! every write to its socket.

use core::ops::ControlFlow;
use vstd::prelude::*;

use crate::common::json::{
    json_number_members, json_object, json_object_text, json_put_number, json_put_text,
    json_render, json_text_members,
};
use crate::common::text::{chars_of, decimal, decimal_string, slice_chars, text_is};
use crate::common::Id;
use crate::sturdy_ws::ws_message::{server_frame, WebSocketMessage, OPCODE_TEXT};
use crate::ws_handler::fields::{
    is_seconds, is_unsigned_integer, parse_state_chars, parse_time_chars, seconds_to_millis,
    state_field, time_field, unsigned_integer_value,
};
use crate::ws_handler::packet::{
    arg_field, arg_fields, arg_separator, field_views, locate_parts, packet_parts, packet_text,
    split_args, StringPacket,
};
use crate::ws_handler::{
    Permission, PermissionType, StateType, VideoData, VideoView, MAX_VIDEO_LEN,
    PERMISSION_CONTROLLABLE, STATE_MAX, STATE_PAUSE, STATE_PLAY, SYNC_TIMEOUT,
};

verus! {

/// A connection that missed more than this many heartbeats in a row is shut.
pub const MAX_MISSED_PING: usize = 2;

/// The JSON snapshot of a room's playback state for a connection with the
/// given permission bits, taken when the clock reads `now`: the members
/// `url`, `cc_url`, `time`, `state`, `current_player` and `permission`,
/// where `time` is the projected position.
pub open spec fn video_json(video: VideoView, permission: PermissionType, now: u128) -> Seq<char> {
    json_object_text(
        Map::<Seq<char>, Seq<char>>::empty().insert("url"@, video.url).insert(
            "cc_url"@,
            video.cc_url,
        ),
        Map::<Seq<char>, u64>::empty().insert("time"@, video.projected_time(now) as u64).insert(
            "state"@,
            video.state as u64,
        ).insert("current_player"@, video.current_player as u64).insert(
            "permission"@,
            permission as u64,
        ),
    )
}

/// Renders the JSON snapshot of a room's playback state.
pub fn video_data_json(data: &VideoData, permission: PermissionType, now: u128) -> (json: String)
    requires
        data@.wf(),
    ensures
        json@ == video_json(data@, permission, now),
{
    let url = data.get_url();
    let cc_url = data.get_cc_url();
    let mut object = json_object();
    json_put_text(&mut object, "url", url.as_str());
    json_put_text(&mut object, "cc_url", cc_url.as_str());
    json_put_number(&mut object, "time", data.projected_time(now) as u64);
    json_put_number(&mut object, "state", data.get_state() as u64);
    json_put_number(&mut object, "current_player", data.get_current_player() as u64);
    json_put_number(&mut object, "permission", permission as u64);
    proof {
        reveal_strlit("url");
        reveal_strlit("cc_url");
        reveal_strlit("time");
        reveal_strlit("state");
        reveal_strlit("current_player");
        reveal_strlit("permission");
        assert("url"@.len() == 3 && "cc_url"@.len() == 6 && "time"@.len() == 4 && "state"@.len()
            == 5 && "current_player"@.len() == 14 && "permission"@.len() == 10);
        assert(json_text_members(object) =~= Map::<Seq<char>, Seq<char>>::empty().insert(
            "url"@,
            data@.url,
        ).insert("cc_url"@, data@.cc_url));
        assert(json_number_members(object) =~= Map::<Seq<char>, u64>::empty().insert(
            "time"@,
            data@.projected_time(now) as u64,
        ).insert("state"@, data@.state as u64).insert(
            "current_player"@,
            data@.current_player as u64,
        ).insert("permission"@, permission as u64));
    }
    json_render(object)
}

/// Who receives a reply.
#[derive(Clone, Copy, Debug, PartialEq, Eq, Structural)]
pub enum Audience {
    /// Only the connection that sent the frame, through its outbox.
    Sender,
    /// Every subscriber of the room, through the broadcast channel.
    Room,
}

/// The mathematical content of a [`Reply`].
pub struct ReplyView {
    pub audience: Audience,
    pub text: Seq<char>,
}

/// A text packet to send, and to whom.
pub struct Reply {
    pub audience: Audience,
    pub text: String,
}

impl View for Reply {
    type V = ReplyView;

    open spec fn view(&self) -> ReplyView {
        ReplyView { audience: self.audience, text: self.text@ }
    }
}

impl Reply {
    /// The reply as a message for an outbox.
    pub fn into_message(self) -> (message: WebSocketMessage)
        ensures
            message == WebSocketMessage::Text(self.text),
    {
        WebSocketMessage::Text(self.text)
    }

    /// The reply as the bytes of one text frame, serialized once for every
    /// subscriber.
    pub fn into_frame(self) -> (bytes: Vec<u8>)
        ensures
            bytes@ == server_frame(OPCODE_TEXT, vstd::utf8::encode_utf8(self.text@)),
    {
        WebSocketMessage::Text(self.text).into_server_shared_bytes()
    }
}

/// What the server does with one text frame: whether it counts as a
/// heartbeat, what it answers, and the playback state afterwards.
pub struct Reaction {
    pub processed: bool,
    pub reply: Option<ReplyView>,
    pub video: VideoView,
}

/// The mathematical content of an [`Outcome`].
pub struct OutcomeView {
    pub processed: bool,
    pub reply: Option<ReplyView>,
}

/// What came of one text frame: whether it counts as a heartbeat, and the
/// packet to send in answer, if any.
pub struct Outcome {
    pub processed: bool,
    pub reply: Option<Reply>,
}

impl View for Outcome {
    type V = OutcomeView;

    open spec fn view(&self) -> OutcomeView {
        OutcomeView {
            processed: self.processed,
            reply: match self.reply {
                Some(reply) => Some(reply@),
                None => None,
            },
        }
    }
}

impl Reaction {
    /// The frame is dropped: no heartbeat, no answer, no change.
    pub open spec fn ignored(video: VideoView) -> Reaction {
        Reaction { processed: false, reply: None, video }
    }

    /// The frame is not applied; `heartbeat` says whether it still counts as
    /// a sign of life.
    pub open spec fn dropped(heartbeat: bool, video: VideoView) -> Reaction {
        Reaction { processed: heartbeat, reply: None, video }
    }

    /// The frame is answered with `text` for `audience` and leaves `video`.
    pub open spec fn answered(audience: Audience, text: Seq<char>, video: VideoView) -> Reaction {
        Reaction { processed: true, reply: Some(ReplyView { audience, text }), video }
    }

    pub open spec fn outcome(self) -> OutcomeView {
        OutcomeView { processed: self.processed, reply: self.reply }
    }
}

/// The distance between two positions.
pub open spec fn drift(a: int, b: int) -> int {
    if a >= b {
        a - b
    } else {
        b - a
    }
}

/// A reported state calls for a correction when the play state differs or
/// the position is further than `SYNC_TIMEOUT` from the projected one.
pub open spec fn needs_update(video: VideoView, now: u128, time: usize, state: StateType) -> bool {
    state != video.state || drift(time as int, video.projected_time(now)) > SYNC_TIMEOUT
}

/// The `state` packet for a position in milliseconds and a play state.
pub open spec fn state_text(time: nat, state: StateType) -> Seq<char> {
    packet_text("state"@, decimal(time) + arg_separator() + decimal(state as nat))
}

/// The `state_ok` packet.
pub open spec fn state_ok_text() -> Seq<char> {
    packet_text("state_ok"@, Seq::<char>::empty())
}

/// A `seek`, `play` or `pause` packet for a position in milliseconds.
pub open spec fn control_text(kind: Seq<char>, time: nat) -> Seq<char> {
    packet_text(kind, decimal(time))
}

/// The `video_data` packet that carries a JSON snapshot.
pub open spec fn video_data_text(json: Seq<char>) -> Seq<char> {
    packet_text("video_data"@, json)
}

/// How a `state` report of a connection that may control the room is
/// handled: a report that calls for a correction is written and broadcast,
/// any other is acknowledged to the sender.
pub open spec fn privileged_state(
    video: VideoView,
    now: u128,
    time: usize,
    state: StateType,
) -> Reaction {
    if needs_update(video, now, time, state) {
        Reaction::answered(
            Audience::Room,
            state_text(time as nat, state),
            video.with_state(time, state, now),
        )
    } else {
        Reaction::answered(Audience::Sender, state_ok_text(), video)
    }
}

/// What a frame from a connection that may control the room leads to.
///
/// * `state <seconds>|.|<state>`: see `privileged_state`.
/// * `seek <seconds>`: the position is written and `seek <ms>` broadcast.
/// * `play <seconds>` and `pause <seconds>`: position and play state are
///   written and the packet, with the position in milliseconds, broadcast.
/// * A missing or malformed argument drops the frame; an argument out of
///   range drops it too, but it still counts as a heartbeat.
/// * Anything else is ignored.
pub open spec fn privileged_reaction(text: Seq<char>, video: VideoView, now: u128) -> Reaction {
    match packet_parts(text) {
        None => Reaction::ignored(video),
        Some((kind, data)) => {
            let time = time_field(arg_field(data, 0));
            if kind == "state"@ {
                match time {
                    ControlFlow::Break(heartbeat) => Reaction::dropped(heartbeat, video),
                    ControlFlow::Continue(t) => match state_field(arg_field(data, 1)) {
                        ControlFlow::Break(heartbeat) => Reaction::dropped(heartbeat, video),
                        ControlFlow::Continue(s) => privileged_state(video, now, t, s),
                    },
                }
            } else if kind == "seek"@ {
                match time {
                    ControlFlow::Break(heartbeat) => Reaction::dropped(heartbeat, video),
                    ControlFlow::Continue(t) => Reaction::answered(
                        Audience::Room,
                        control_text(kind, t as nat),
                        video.with_time(t, now),
                    ),
                }
            } else if kind == "play"@ {
                match time {
                    ControlFlow::Break(heartbeat) => Reaction::dropped(heartbeat, video),
                    ControlFlow::Continue(t) => Reaction::answered(
                        Audience::Room,
                        control_text(kind, t as nat),
                        video.with_state(t, STATE_PLAY, now),
                    ),
                }
            } else if kind == "pause"@ {
                match time {
                    ControlFlow::Break(heartbeat) => Reaction::dropped(heartbeat, video),
                    ControlFlow::Continue(t) => Reaction::answered(
                        Audience::Room,
                        control_text(kind, t as nat),
                        video.with_state(t, STATE_PAUSE, now),
                    ),
                }
            } else {
                Reaction::ignored(video)
            }
        },
    }
}

/// What a frame from a connection that may not control the room leads to.
/// The playback state never changes and nothing is broadcast.
///
/// * `state <seconds>|.|<state>`: a report that calls for a correction is
///   answered with the authoritative `state` packet, any other with
///   `state_ok`.
/// * `seek`, `play`, `pause`: answered with a fresh `video_data` snapshot.
/// * Anything else is ignored.
pub open spec fn normal_reaction(
    text: Seq<char>,
    video: VideoView,
    permission: PermissionType,
    now: u128,
) -> Reaction {
    match packet_parts(text) {
        None => Reaction::ignored(video),
        Some((kind, data)) => {
            if kind == "state"@ {
                match time_field(arg_field(data, 0)) {
                    ControlFlow::Break(heartbeat) => Reaction::dropped(heartbeat, video),
                    ControlFlow::Continue(t) => match state_field(arg_field(data, 1)) {
                        ControlFlow::Break(heartbeat) => Reaction::dropped(heartbeat, video),
                        ControlFlow::Continue(s) => if needs_update(video, now, t, s) {
                            Reaction::answered(
                                Audience::Sender,
                                state_text(video.projected_time(now) as nat, video.state),
                                video,
                            )
                        } else {
                            Reaction::answered(Audience::Sender, state_ok_text(), video)
                        },
                    },
                }
            } else if kind == "pause"@ || kind == "play"@ || kind == "seek"@ {
                Reaction::answered(
                    Audience::Sender,
                    video_data_text(video_json(video, permission, now)),
                    video,
                )
            } else {
                Reaction::ignored(video)
            }
        },
    }
}

/// The `n`-th argument, where there is one.
fn field_at(fields: &Vec<Vec<char>>, n: usize, Ghost(data): Ghost<Seq<char>>) -> (field: Option<
    &Vec<char>,
>)
    requires
        field_views(fields@) == arg_fields(data),
    ensures
        match field {
            Some(chars) => arg_field(data, n as int) == Some(chars@),
            None => arg_field(data, n as int) is None,
        },
{
    if n < fields.len() {
        Some(&fields[n])
    } else {
        None
    }
}

/// Reads a time argument that may be missing.
fn parse_time_field(field: Option<&Vec<char>>) -> (time: ControlFlow<bool, usize>)
    ensures
        time == time_field(
            match field {
                Some(chars) => Some(chars@),
                None => None,
            },
        ),
{
    match field {
        None => ControlFlow::Break(false),
        Some(chars) => parse_time_chars(chars),
    }
}

/// Reads a state argument that may be missing.
fn parse_state_field(field: Option<&Vec<char>>) -> (state: ControlFlow<bool, StateType>)
    ensures
        state == state_field(
            match field {
                Some(chars) => Some(chars@),
                None => None,
            },
        ),
{
    match field {
        None => ControlFlow::Break(false),
        Some(chars) => parse_state_chars(chars),
    }
}

/// A packet of the given type with the given, already joined, arguments.
pub(crate) fn packet_string(kind: &str, args: &str) -> (text: String)
    ensures
        text@ == packet_text(kind@, args@),
{
    StringPacket::new(kind).arg(args).into_string()
}

/// The `state` packet for a position and a play state.
fn state_packet(time: usize, state: StateType) -> (text: String)
    ensures
        text@ == state_text(time as nat, state),
{
    let time_arg = decimal_string(time as u64);
    let state_arg = decimal_string(state as u64);
    let packet = StringPacket::new("state").arg(time_arg.as_str()).arg(state_arg.as_str());
    packet.into_string()
}

/// The `state_ok` packet.
fn state_ok_packet() -> (text: String)
    ensures
        text@ == state_ok_text(),
{
    proof {
        reveal_strlit("");
    }
    packet_string("state_ok", "")
}

/// A `seek`, `play` or `pause` packet for a position.
fn control_packet(kind: &str, time: usize) -> (text: String)
    ensures
        text@ == control_text(kind@, time as nat),
{
    let time_arg = decimal_string(time as u64);
    packet_string(kind, time_arg.as_str())
}

/// Whether a reported state calls for a correction.
fn check_needs_update(data: &VideoData, now: u128, time: usize, state: StateType) -> (needed: bool)
    requires
        data@.wf(),
    ensures
        needed == needs_update(data@, now, time, state),
{
    let stored: usize = data.projected_time(now);
    let apart: usize = if time >= stored {
        time - stored
    } else {
        stored - time
    };
    state != data.get_state() || apart as u128 > SYNC_TIMEOUT
}

/// Handles one text frame from a connection that may control the room,
/// received when the clock reads `now`.
pub fn process_privileged_message(input_str: &str, data: &mut VideoData, now: u128) -> (outcome:
    Outcome)
    requires
        old(data)@.wf(),
    ensures
        outcome@ == privileged_reaction(input_str@, old(data)@, now).outcome(),
        final(data)@ == privileged_reaction(input_str@, old(data)@, now).video,
        final(data)@.wf(),
{
    let chars = chars_of(input_str);
    let (a, b, c, d) = match locate_parts(&chars) {
        None => {
            return Outcome { processed: false, reply: None };
        },
        Some(ranges) => ranges,
    };
    let kind = slice_chars(&chars, a, b);
    let args = slice_chars(&chars, c, d);
    let fields = split_args(&args);
    let time = parse_time_field(field_at(&fields, 0, Ghost(args@)));
    let is_state: bool = text_is(&kind, "state");
    let is_seek: bool = text_is(&kind, "seek");
    let is_play: bool = text_is(&kind, "play");
    let is_pause: bool = text_is(&kind, "pause");
    if !(is_state || is_seek || is_play || is_pause) {
        return Outcome { processed: false, reply: None };
    }
    let time: usize = match time {
        ControlFlow::Break(heartbeat) => {
            return Outcome { processed: heartbeat, reply: None };
        },
        ControlFlow::Continue(time) => time,
    };
    if is_state {
        let state: StateType = match parse_state_field(field_at(&fields, 1, Ghost(args@))) {
            ControlFlow::Break(heartbeat) => {
                return Outcome { processed: heartbeat, reply: None };
            },
            ControlFlow::Continue(state) => state,
        };
        if check_needs_update(data, now, time, state) {
            data.set_state_at(time, state, now);
            Outcome {
                processed: true,
                reply: Some(Reply { audience: Audience::Room, text: state_packet(time, state) }),
            }
        } else {
            Outcome {
                processed: true,
                reply: Some(Reply { audience: Audience::Sender, text: state_ok_packet() }),
            }
        }
    } else if is_seek {
        data.set_time_at(time, now);
        Outcome {
            processed: true,
            reply: Some(Reply { audience: Audience::Room, text: control_packet("seek", time) }),
        }
    } else if is_play {
        data.set_state_at(time, STATE_PLAY, now);
        Outcome {
            processed: true,
            reply: Some(Reply { audience: Audience::Room, text: control_packet("play", time) }),
        }
    } else {
        data.set_state_at(time, STATE_PAUSE, now);
        Outcome {
            processed: true,
            reply: Some(Reply { audience: Audience::Room, text: control_packet("pause", time) }),
        }
    }
}

/// Handles one text frame from a connection that may not control the room,
/// received when the clock reads `now`.
pub fn process_normal_message(
    input_str: &str,
    data: &VideoData,
    permission: PermissionType,
    now: u128,
) -> (outcome: Outcome)
    requires
        data@.wf(),
    ensures
        outcome@ == normal_reaction(input_str@, data@, permission, now).outcome(),
{
    let chars = chars_of(input_str);
    let (a, b, c, d) = match locate_parts(&chars) {
        None => {
            return Outcome { processed: false, reply: None };
        },
        Some(ranges) => ranges,
    };
    let kind = slice_chars(&chars, a, b);
    let args = slice_chars(&chars, c, d);
    if text_is(&kind, "state") {
        let fields = split_args(&args);
        let time: usize = match parse_time_field(field_at(&fields, 0, Ghost(args@))) {
            ControlFlow::Break(heartbeat) => {
                return Outcome { processed: heartbeat, reply: None };
            },
            ControlFlow::Continue(time) => time,
        };
        let state: StateType = match parse_state_field(field_at(&fields, 1, Ghost(args@))) {
            ControlFlow::Break(heartbeat) => {
                return Outcome { processed: heartbeat, reply: None };
            },
            ControlFlow::Continue(state) => state,
        };
        if check_needs_update(data, now, time, state) {
            Outcome {
                processed: true,
                reply: Some(
                    Reply {
                        audience: Audience::Sender,
                        text: state_packet(data.projected_time(now), data.get_state()),
                    },
                ),
            }
        } else {
            Outcome {
                processed: true,
                reply: Some(Reply { audience: Audience::Sender, text: state_ok_packet() }),
            }
        }
    } else if text_is(&kind, "pause") || text_is(&kind, "play") || text_is(&kind, "seek") {
        let json = video_data_json(data, permission, now);
        Outcome {
            processed: true,
            reply: Some(
                Reply { audience: Audience::Sender, text: packet_string("video_data", json.as_str()) },
            ),
        }
    } else {
        Outcome { processed: false, reply: None }
    }
}


/// The mathematical content of a [`UserState`].
pub struct UserView {
    pub id: Seq<u8>,
    pub room_id: Seq<u8>,
    pub name: Seq<char>,
    pub permission: PermissionType,
}

/// A connected user: who it is, which room it sits in, under which name and
/// with which permission it joined.
pub struct UserState {
    pub id: Id,
    pub room_id: Id,
    pub name: String,
    pub permission: Permission,
}

impl View for UserState {
    type V = UserView;

    open spec fn view(&self) -> UserView {
        UserView {
            id: self.id@,
            room_id: self.room_id@,
            name: self.name@,
            permission: self.permission@,
        }
    }
}

impl Clone for UserState {
    fn clone(&self) -> (copy: UserState)
        ensures
            copy@ == self@,
    {
        UserState {
            id: self.id,
            room_id: self.room_id,
            name: self.name.clone(),
            permission: self.permission,
        }
    }
}

/// How a non-blocking write to the socket ended.
#[derive(Clone, Copy, Debug, PartialEq, Eq, Structural)]
pub enum WriteResult {
    /// The bytes were handed to the socket.
    Written,
    /// The socket would have blocked; nothing was written.
    WouldBlock,
    /// Any other I/O error.
    Failed,
}

/// What the send activity does after a write.
#[derive(Clone, Copy, Debug, PartialEq, Eq, Structural)]
pub enum SendStep {
    /// Go on with the next message.
    Continue,
    /// Put the message back into the outbox, then go on.
    Requeue,
    /// The send activity is over.
    Stop,
}

/// What the send activity does after a write of a message that was meant
/// for `audience`: a socket that would block costs a broadcast message,
/// which is dropped, but not a direct one, which goes back into the
/// outbox; any other error ends the activity.
pub open spec fn send_step(audience: Audience, result: WriteResult) -> SendStep {
    match result {
        WriteResult::Written => SendStep::Continue,
        WriteResult::WouldBlock => match audience {
            Audience::Room => SendStep::Continue,
            Audience::Sender => SendStep::Requeue,
        },
        WriteResult::Failed => SendStep::Stop,
    }
}

/// What the send activity does after a write of a message that was meant
/// for `audience`.
pub fn after_write(audience: Audience, result: WriteResult) -> (step: SendStep)
    ensures
        step == send_step(audience, result),
{
    match result {
        WriteResult::Written => SendStep::Continue,
        WriteResult::WouldBlock => match audience {
            Audience::Room => SendStep::Continue,
            Audience::Sender => SendStep::Requeue,
        },
        WriteResult::Failed => SendStep::Stop,
    }
}

/// What one wait on the socket produced.
pub enum Incoming {
    /// A text frame.
    Text(String),
    /// A close frame.
    Close,
    /// Any other frame: binary data, a ping, a pong.
    Other,
    /// Nothing arrived within `CLIENT_TIMEOUT`.
    Timeout,
    /// The stream ended or failed.
    Ended,
}

/// The mathematical content of an [`Incoming`].
pub enum IncomingView {
    Text(Seq<char>),
    Close,
    Other,
    Timeout,
    Ended,
}

impl View for Incoming {
    type V = IncomingView;

    open spec fn view(&self) -> IncomingView {
        match self {
            Incoming::Text(text) => IncomingView::Text(text@),
            Incoming::Close => IncomingView::Close,
            Incoming::Other => IncomingView::Other,
            Incoming::Timeout => IncomingView::Timeout,
            Incoming::Ended => IncomingView::Ended,
        }
    }
}

/// What the receive activity does next.
pub enum RecvStep {
    /// Keep receiving, after sending the reply if there is one.
    Continue(Option<Reply>),
    /// The receive activity is over.
    Stop,
}

/// The mathematical content of a [`RecvStep`].
pub enum RecvStepView {
    Continue(Option<ReplyView>),
    Stop,
}

impl View for RecvStep {
    type V = RecvStepView;

    open spec fn view(&self) -> RecvStepView {
        match self {
            RecvStep::Continue(Some(reply)) => RecvStepView::Continue(Some(reply@)),
            RecvStep::Continue(None) => RecvStepView::Continue(None),
            RecvStep::Stop => RecvStepView::Stop,
        }
    }
}

/// What one wait on the socket leads to: the count of missed heartbeats and
/// the playback state afterwards, and what the receive activity does next.
pub struct RecvReaction {
    pub missed_pings: nat,
    pub video: VideoView,
    pub step: RecvStepView,
}

/// The count of missed heartbeats after one more was missed. It stops
/// counting one above `MAX_MISSED_PING`.
pub open spec fn missed_one_more(missed_pings: nat) -> nat {
    if missed_pings >= MAX_MISSED_PING {
        (MAX_MISSED_PING + 1) as nat
    } else {
        missed_pings + 1
    }
}

/// One more heartbeat is missed: the activity goes on until the count
/// exceeds `MAX_MISSED_PING`.
pub open spec fn miss_reaction(missed_pings: nat, video: VideoView) -> RecvReaction {
    RecvReaction {
        missed_pings: missed_one_more(missed_pings),
        video,
        step: if missed_one_more(missed_pings) > MAX_MISSED_PING {
            RecvStepView::Stop
        } else {
            RecvStepView::Continue(None)
        },
    }
}

/// What the receive activity makes of one wait on the socket.
///
/// * The end of the stream stops it at once.
/// * Otherwise the stored position is first brought forward to `now`.
/// * A close frame stops it.
/// * A timeout, or a frame that is neither text nor close, is a missed
///   heartbeat.
/// * A text frame is handled as the connection's permission asks; if it
///   counts as a heartbeat the count of missed ones starts again at zero.
pub open spec fn recv_reaction(
    missed_pings: nat,
    incoming: IncomingView,
    video: VideoView,
    permission: PermissionType,
    now: u128,
) -> RecvReaction {
    let fresh = video.refreshed(now);
    match incoming {
        IncomingView::Ended => RecvReaction { missed_pings, video, step: RecvStepView::Stop },
        IncomingView::Close => RecvReaction { missed_pings, video: fresh, step: RecvStepView::Stop },
        IncomingView::Timeout => miss_reaction(missed_pings, fresh),
        IncomingView::Other => miss_reaction(missed_pings, fresh),
        IncomingView::Text(text) => {
            let reaction = if Permission(permission).grants(PERMISSION_CONTROLLABLE) {
                privileged_reaction(text, fresh, now)
            } else {
                normal_reaction(text, fresh, permission, now)
            };
            RecvReaction {
                missed_pings: if reaction.processed {
                    0
                } else {
                    missed_pings
                },
                video: reaction.video,
                step: RecvStepView::Continue(reaction.reply),
            }
        },
    }
}

/// The receive activity of one connection between two waits on its socket.
pub struct RecvTask {
    missed_pings: usize,
}

impl View for RecvTask {
    type V = nat;

    closed spec fn view(&self) -> nat {
        self.missed_pings as nat
    }
}

impl RecvTask {
    /// A receive activity that has missed no heartbeat yet.
    pub fn new() -> (task: RecvTask)
        ensures
            task@ == 0,
    {
        RecvTask { missed_pings: 0 }
    }

    /// How many heartbeats in a row were missed.
    pub fn missed_pings(&self) -> (missed: usize)
        ensures
            missed == self@,
    {
        self.missed_pings
    }

    /// Counts one missed heartbeat and says whether the activity goes on.
    /// Also to be called when a reply could not be handed to its channel.
    pub fn miss(&mut self) -> (step: RecvStep)
        ensures
            final(self)@ == missed_one_more(old(self)@),
            step@ == if missed_one_more(old(self)@) > MAX_MISSED_PING {
                RecvStepView::Stop
            } else {
                RecvStepView::Continue(None)
            },
    {
        if self.missed_pings >= MAX_MISSED_PING {
            self.missed_pings = MAX_MISSED_PING + 1;
            RecvStep::Stop
        } else {
            self.missed_pings = self.missed_pings + 1;
            RecvStep::Continue(None)
        }
    }

    /// One turn of the receive activity of a connection that may control
    /// the room.
    pub fn recv_task_privileged(&mut self, incoming: Incoming, data: &mut VideoData, now: u128) -> (step:
        RecvStep)
        requires
            old(data)@.wf(),
        ensures
            final(data)@.wf(),
            match incoming@ {
                IncomingView::Ended => step@ == RecvStepView::Stop && final(self)@ == old(self)@
                    && final(data)@ == old(data)@,
                IncomingView::Close => step@ == RecvStepView::Stop && final(self)@ == old(self)@
                    && final(data)@ == old(data)@.refreshed(now),
                IncomingView::Timeout | IncomingView::Other => {
                    &&& final(self)@ == missed_one_more(old(self)@)
                    &&& final(data)@ == old(data)@.refreshed(now)
                    &&& step@ == miss_reaction(old(self)@, final(data)@).step
                },
                IncomingView::Text(text) => {
                    let reaction = privileged_reaction(text, old(data)@.refreshed(now), now);
                    &&& final(self)@ == if reaction.processed {
                        0
                    } else {
                        old(self)@
                    }
                    &&& final(data)@ == reaction.video
                    &&& step@ == RecvStepView::Continue(reaction.reply)
                },
            },
    {
        match incoming {
            Incoming::Ended => RecvStep::Stop,
            Incoming::Close => {
                data.update_time_at(now);
                RecvStep::Stop
            },
            Incoming::Timeout => {
                data.update_time_at(now);
                self.miss()
            },
            Incoming::Other => {
                data.update_time_at(now);
                self.miss()
            },
            Incoming::Text(text) => {
                data.update_time_at(now);
                let outcome = process_privileged_message(text.as_str(), data, now);
                if outcome.processed {
                    self.missed_pings = 0;
                }
                RecvStep::Continue(outcome.reply)
            },
        }
    }

    /// One turn of the receive activity of a connection that may not
    /// control the room.
    pub fn recv_task_normal(
        &mut self,
        incoming: Incoming,
        data: &mut VideoData,
        permission: Permission,
        now: u128,
    ) -> (step: RecvStep)
        requires
            old(data)@.wf(),
        ensures
            final(data)@.wf(),
            match incoming@ {
                IncomingView::Ended => step@ == RecvStepView::Stop && final(self)@ == old(self)@
                    && final(data)@ == old(data)@,
                IncomingView::Close => step@ == RecvStepView::Stop && final(self)@ == old(self)@
                    && final(data)@ == old(data)@.refreshed(now),
                IncomingView::Timeout | IncomingView::Other => {
                    &&& final(self)@ == missed_one_more(old(self)@)
                    &&& final(data)@ == old(data)@.refreshed(now)
                    &&& step@ == miss_reaction(old(self)@, final(data)@).step
                },
                IncomingView::Text(text) => {
                    let reaction = normal_reaction(
                        text,
                        old(data)@.refreshed(now),
                        permission@,
                        now,
                    );
                    &&& final(self)@ == if reaction.processed {
                        0
                    } else {
                        old(self)@
                    }
                    &&& final(data)@ == old(data)@.refreshed(now)
                    &&& step@ == RecvStepView::Continue(reaction.reply)
                },
            },
    {
        match incoming {
            Incoming::Ended => RecvStep::Stop,
            Incoming::Close => {
                data.update_time_at(now);
                RecvStep::Stop
            },
            Incoming::Timeout => {
                data.update_time_at(now);
                self.miss()
            },
            Incoming::Other => {
                data.update_time_at(now);
                self.miss()
            },
            Incoming::Text(text) => {
                data.update_time_at(now);
                let outcome = process_normal_message(text.as_str(), data, permission.bits(), now);
                if outcome.processed {
                    self.missed_pings = 0;
                }
                RecvStep::Continue(outcome.reply)
            },
        }
    }

    /// One turn of the receive activity: the frame is handled as privileged
    /// where the connection's permission holds `PERMISSION_CONTROLLABLE`,
    /// as normal otherwise.
    pub fn recv_task(
        &mut self,
        incoming: Incoming,
        data: &mut VideoData,
        permission: Permission,
        now: u128,
    ) -> (step: RecvStep)
        requires
            old(data)@.wf(),
        ensures
            final(data)@.wf(),
            final(self)@ == recv_reaction(
                old(self)@,
                incoming@,
                old(data)@,
                permission@,
                now,
            ).missed_pings,
            final(data)@ == recv_reaction(old(self)@, incoming@, old(data)@, permission@, now).video,
            step@ == recv_reaction(old(self)@, incoming@, old(data)@, permission@, now).step,
    {
        if permission.has_permission(PERMISSION_CONTROLLABLE) {
            self.recv_task_privileged(incoming, data, now)
        } else {
            self.recv_task_normal(incoming, data, permission, now)
        }
    }
}


/// A time beyond the longest video is received but not applied: the frame
/// counts as a heartbeat, nothing is sent and the playback state stays as
/// it is.
pub proof fn lemma_late_time_is_rejected(
    text: Seq<char>,
    kind: Seq<char>,
    data: Seq<char>,
    video: VideoView,
    now: u128,
)
    requires
        packet_parts(text) == Some((kind, data)),
        kind == "state"@ || kind == "seek"@ || kind == "play"@ || kind == "pause"@,
        is_seconds(arg_fields(data)[0]),
        seconds_to_millis(arg_fields(data)[0]) > MAX_VIDEO_LEN,
    ensures
        privileged_reaction(text, video, now) == Reaction::dropped(true, video),
{
}

/// A state above the largest one is received but not applied: the frame
/// counts as a heartbeat, nothing is sent and the playback state stays as
/// it is.
pub proof fn lemma_unknown_state_is_rejected(
    text: Seq<char>,
    data: Seq<char>,
    video: VideoView,
    now: u128,
)
    requires
        packet_parts(text) == Some(("state"@, data)),
        time_field(arg_field(data, 0)) is Continue,
        arg_fields(data).len() >= 2,
        is_unsigned_integer(arg_fields(data)[1]),
        STATE_MAX < unsigned_integer_value(arg_fields(data)[1]) <= 255,
    ensures
        privileged_reaction(text, video, now) == Reaction::dropped(true, video),
        forall|permission: PermissionType|
            #[trigger] normal_reaction(text, video, permission, now) == Reaction::dropped(
                true,
                video,
            ),
{
}

/// After a privileged `play`, `pause`, `play` in this order, whenever each
/// arrives, the room plays at the position of the last `play`, and that
/// `play` is what was broadcast last.
pub proof fn lemma_play_pause_play(
    video: VideoView,
    first: Seq<char>,
    second: Seq<char>,
    third: Seq<char>,
    times: (usize, usize, usize),
    clock: (u128, u128, u128),
)
    requires
        packet_parts(first) matches Some((kind, data)) && kind == "play"@ && time_field(
            arg_field(data, 0),
        ) == ControlFlow::<bool, usize>::Continue(times.0),
        packet_parts(second) matches Some((kind, data)) && kind == "pause"@ && time_field(
            arg_field(data, 0),
        ) == ControlFlow::<bool, usize>::Continue(times.1),
        packet_parts(third) matches Some((kind, data)) && kind == "play"@ && time_field(
            arg_field(data, 0),
        ) == ControlFlow::<bool, usize>::Continue(times.2),
    ensures
        ({
            let after_first = privileged_reaction(first, video, clock.0);
            let after_second = privileged_reaction(second, after_first.video, clock.1);
            let after_third = privileged_reaction(third, after_second.video, clock.2);
            &&& after_first.reply == Some(
                ReplyView { audience: Audience::Room, text: control_text("play"@, times.0 as nat) },
            )
            &&& after_second.reply == Some(
                ReplyView { audience: Audience::Room, text: control_text("pause"@, times.1 as nat) },
            )
            &&& after_third.reply == Some(
                ReplyView { audience: Audience::Room, text: control_text("play"@, times.2 as nat) },
            )
            &&& after_third.video.state == STATE_PLAY
            &&& after_third.video.time == times.2
            &&& after_third.video.last_time_updated == clock.2
        }),
{
    reveal_strlit("play");
    reveal_strlit("pause");
    reveal_strlit("state");
    reveal_strlit("seek");
    assert("play"@[0] == 'p' && "state"@[0] == 's' && "seek"@[0] == 's' && "pause"@[0] == 'p');
}

/// A `state` report that arrives twice from a connection that may control
/// the room, the second time no later than `SYNC_TIMEOUT` after the first,
/// is broadcast at most once: if the first report was written and
/// broadcast, the second changes nothing and is answered with `state_ok`
/// to its sender alone.
pub proof fn lemma_repeated_state_is_deduplicated(
    text: Seq<char>,
    video: VideoView,
    first_at: u128,
    second_at: u128,
)
    requires
        video.wf(),
        first_at <= second_at <= first_at + SYNC_TIMEOUT,
        packet_parts(text) matches Some((kind, data)) && kind == "state"@ && time_field(
            arg_field(data, 0),
        ) is Continue && state_field(arg_field(data, 1)) is Continue,
    ensures
        ({
            let first = privileged_reaction(text, video, first_at);
            let second = privileged_reaction(text, first.video, second_at);
            &&& first.reply is Some && second.reply is Some
            &&& first.reply->0.audience == Audience::Room ==> second.reply == Some(
                ReplyView { audience: Audience::Sender, text: state_ok_text() },
            ) && second.video == first.video
            &&& !(first.reply->0.audience == Audience::Room && second.reply->0.audience
                == Audience::Room)
        }),
{
}

} // verus!
