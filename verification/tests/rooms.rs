use sturdy_spoon::common::nanoid::NanoId;
use sturdy_spoon::sturdy_ws::ws_message::{CloseCode, WebSocketMessage};
use sturdy_spoon::ws_handler::room_state::RoomState;
use sturdy_spoon::ws_handler::handshake::{
    left_packet, validate_and_handle_client, validate_and_handle_client_as, verify_join_msg,
    verify_join_msg_as, Admission, ValidationError,
};
use sturdy_spoon::ws_handler::user_state::{Audience, Incoming, RecvStep, RecvTask};
use sturdy_spoon::ws_handler::ws_state::{WebSocketStateError, WsState, DEFAULT_WS, MAX_USERS};
use sturdy_spoon::ws_handler::{
    Permission, VideoData, CLIENT_TIMEOUT, PERMISSION_ALL, PERMISSION_CONTROLLABLE, STATE_PLAY,
};
use sturdy_spoon::basic_auth::{Keys, OwnerAuth};
use sturdy_spoon::web::room::{checked_owner, create, validate_cookie, CreateRoomPayload};

fn id(text: &str) -> NanoId {
    NanoId::from_str(text).unwrap()
}

fn video() -> VideoData {
    VideoData::new_at("u".to_string(), "".to_string(), 1, 0)
}

fn state_with_room(room: &str, max_users: u32) -> WsState {
    let mut state = WsState::new();
    state.create_room_as(video(), "R".to_string(), max_users, id(room)).unwrap();
    state
}

const ROOM: &str = "room000000000001";

#[test]
fn room_with_the_most_seats_is_created_and_one_more_is_refused() {
    let mut state = WsState::new();
    let created = state.create_room(video(), "R".to_string(), MAX_USERS);
    let (room_id, ws_path) = created.unwrap();
    assert_eq!(ws_path, DEFAULT_WS);
    assert_eq!(ws_path, "room/ws");
    let room = state.get_room(room_id).unwrap();
    assert_eq!((room.remaining_users(), room.max_users()), (100, 100));
    let refused = state.create_room(video(), "R".to_string(), MAX_USERS + 1);
    assert_eq!(refused.err(), Some(WebSocketStateError::MaxUserExceeded));
    let refused = state.create_room_as(video(), "R".to_string(), u32::MAX, id(ROOM));
    assert_eq!(refused.err(), Some(WebSocketStateError::MaxUserExceeded));
    assert_eq!(state.get_room(id(ROOM)).err(), Some(WebSocketStateError::NoRoom));
}

#[test]
fn created_room_is_empty_and_keeps_its_data() {
    let state = state_with_room(ROOM, 3);
    let room = state.get_room(id(ROOM)).unwrap();
    assert_eq!(room.id().to_string(), ROOM);
    assert_eq!(room.name(), "R");
    assert_eq!(room.remaining_users(), 3);
    assert!(room.is_empty());
    assert!(!room.is_full());
    assert_eq!(room.data().get_url(), "u");
    assert!(!room.is_due(u128::MAX));
}

#[test]
fn creating_under_a_taken_identifier_keeps_the_first_room() {
    let mut state = state_with_room(ROOM, 3);
    let again = state.create_room_as(video(), "Other".to_string(), 5, id(ROOM));
    assert_eq!(again.unwrap().0.to_string(), ROOM);
    let room = state.get_room(id(ROOM)).unwrap();
    assert_eq!((room.name(), room.max_users()), ("R".to_string(), 3));
}

#[test]
fn verify_room_reports_missing_and_full_rooms() {
    let mut state = state_with_room(ROOM, 1);
    let (room_id, name, ws_path) = state.verify_room(id(ROOM)).unwrap();
    assert_eq!((room_id.to_string(), name, ws_path), (ROOM.to_string(), "R".to_string(), "room/ws".to_string()));
    assert_eq!(state.verify_room(id("room000000000002")).err(), Some(WebSocketStateError::NoRoom));
    state.join_room(id(ROOM), "A".to_string(), None).unwrap();
    assert_eq!(state.verify_room(id(ROOM)).err(), Some(WebSocketStateError::RoomFull));
}

#[test]
fn join_of_a_missing_room_is_refused_and_changes_no_counter() {
    let mut state = state_with_room(ROOM, 2);
    state.join_room(id(ROOM), "A".to_string(), None).unwrap();
    let refused = state.join_room(id("room000000000002"), "B".to_string(), None);
    assert_eq!(refused.err(), Some(WebSocketStateError::NoRoom));
    assert_eq!(state.get_room(id(ROOM)).unwrap().remaining_users(), 1);
    assert!(state.get_room(id("room000000000002")).is_err());
}

#[test]
fn third_guest_of_a_room_for_two_is_refused() {
    let mut state = state_with_room(ROOM, 2);
    let first = state.join_room(id(ROOM), "A".to_string(), None).unwrap();
    let second = state.join_room(id(ROOM), "B".to_string(), None).unwrap();
    assert!(!first.id.same(&second.id));
    let third = state.join_room(id(ROOM), "C".to_string(), None);
    assert_eq!(third.err(), Some(WebSocketStateError::RoomFull));
    let room = state.get_room(id(ROOM)).unwrap();
    assert_eq!(room.remaining_users(), 0);
    assert!(room.is_full());
    assert_eq!(state.get_user(first.id).unwrap().name, "A");
    assert_eq!(state.get_user(second.id).unwrap().name, "B");
}

#[test]
fn seats_taken_equal_users_registered_through_joins_and_leaves() {
    let mut state = state_with_room(ROOM, 4);
    let mut seated = Vec::new();
    for round in 0..3 {
        for n in 0..4 {
            let user = state.join_room(id(ROOM), format!("u{n}"), None).unwrap();
            seated.push(user.id);
            let room = state.get_room(id(ROOM)).unwrap();
            assert_eq!((room.max_users() - room.remaining_users()) as usize, seated.len());
        }
        assert!(state.join_room(id(ROOM), "x".to_string(), None).is_err());
        while seated.len() > round {
            let gone = seated.pop().unwrap();
            state.user_left(gone, 10).unwrap();
            assert!(state.get_user(gone).is_err());
            let room = state.get_room(id(ROOM)).unwrap();
            assert_eq!((room.max_users() - room.remaining_users()) as usize, seated.len());
            assert!(room.remaining_users() <= room.max_users());
        }
        for user in seated.drain(..) {
            state.user_left(user, 11).unwrap();
        }
    }
}

#[test]
fn join_under_a_taken_identifier_is_refused() {
    let mut state = state_with_room(ROOM, 3);
    let user = id("user000000000001");
    state.join_room_as(id(ROOM), user, "A".to_string(), None).unwrap();
    let again = state.join_room_as(id(ROOM), user, "B".to_string(), None);
    assert_eq!(again.err(), Some(WebSocketStateError::IdInUse));
    assert_eq!(state.get_room(id(ROOM)).unwrap().remaining_users(), 2);
    assert_eq!(state.get_user(user).unwrap().name, "A");
}

#[test]
fn guest_inherits_room_permission_and_owner_gets_what_is_given() {
    let mut state = WsState::new();
    let mut data = video();
    data.set_permission(PERMISSION_CONTROLLABLE);
    state.create_room_as(data, "R".to_string(), 3, id(ROOM)).unwrap();
    let guest = state.join_room(id(ROOM), "G".to_string(), None).unwrap();
    assert_eq!(guest.permission.bits(), PERMISSION_CONTROLLABLE);
    let owner = state
        .join_room(id(ROOM), "O".to_string(), Some(Permission::from_bits(PERMISSION_ALL)))
        .unwrap();
    assert_eq!(owner.permission.bits(), PERMISSION_ALL);
    assert_eq!(owner.room_id.to_string(), ROOM);
}

#[test]
fn leave_of_an_unknown_user_changes_nothing() {
    let mut state = state_with_room(ROOM, 2);
    state.join_room(id(ROOM), "A".to_string(), None).unwrap();
    let left = state.user_left(id("user00000000000x"), 5);
    assert_eq!(left.err(), Some(WebSocketStateError::NoUser));
    assert_eq!(state.get_room(id(ROOM)).unwrap().remaining_users(), 1);
}

#[test]
fn last_leave_arms_the_teardown_and_others_announce() {
    let mut state = state_with_room(ROOM, 3);
    let a = state.join_room(id(ROOM), "A".to_string(), None).unwrap();
    let b = state.join_room(id(ROOM), "B".to_string(), None).unwrap();
    let departure = state.user_left(a.id, 1_000).unwrap();
    assert!(departure.users_remain);
    assert_eq!(departure.user.name, "A");
    let announce = left_packet(&departure.user);
    assert_eq!(announce.audience, Audience::Room);
    assert_eq!(announce.text, format!("||-=-||left-=-A|.|{}", a.id.to_string()));
    let departure = state.user_left(b.id, 2_000).unwrap();
    assert!(!departure.users_remain);
    let room = state.get_room(id(ROOM)).unwrap();
    assert!(room.is_empty());
    assert!(!room.is_due(2_000 + CLIENT_TIMEOUT as u128 - 1));
    assert!(room.is_due(2_000 + CLIENT_TIMEOUT as u128));
}

#[test]
fn room_is_removed_after_the_grace_period_and_then_unknown() {
    let mut state = state_with_room(ROOM, 2);
    let a = state.join_room(id(ROOM), "A".to_string(), None).unwrap();
    state.user_left(a.id, 50_000).unwrap();
    assert!(!state.room_shutdown_gracefully(id(ROOM), 50_000 + 119_999));
    assert!(state.get_room(id(ROOM)).is_ok());
    assert!(state.room_shutdown_gracefully(id(ROOM), 50_000 + 120_000));
    assert_eq!(state.get_room(id(ROOM)).err(), Some(WebSocketStateError::NoRoom));
    assert_eq!(state.verify_room(id(ROOM)).err(), Some(WebSocketStateError::NoRoom));
    assert!(!state.room_shutdown_gracefully(id(ROOM), u128::MAX));
    assert_eq!(
        state.join_room(id(ROOM), "B".to_string(), None).err(),
        Some(WebSocketStateError::NoRoom)
    );
}

#[test]
fn join_within_the_grace_period_cancels_the_teardown() {
    let mut state = state_with_room(ROOM, 2);
    let a = state.join_room(id(ROOM), "A".to_string(), None).unwrap();
    state.user_left(a.id, 0).unwrap();
    let b = state.join_room(id(ROOM), "B".to_string(), None).unwrap();
    assert!(!state.room_shutdown_gracefully(id(ROOM), 120_000));
    assert!(!state.room_shutdown_gracefully(id(ROOM), u128::MAX));
    state.user_left(b.id, 100_000).unwrap();
    assert!(!state.room_shutdown_gracefully(id(ROOM), 120_000));
    assert!(!state.room_shutdown_gracefully(id(ROOM), 219_999));
    assert!(state.room_shutdown_gracefully(id(ROOM), 220_000));
}

#[test]
fn room_nobody_ever_joined_is_never_due() {
    let mut state = state_with_room(ROOM, 2);
    assert!(!state.room_shutdown_gracefully(id(ROOM), u128::MAX));
    assert!(state.get_room(id(ROOM)).is_ok());
}

#[test]
fn clock_before_the_arming_does_not_remove_the_room() {
    let mut state = state_with_room(ROOM, 1);
    let a = state.join_room(id(ROOM), "A".to_string(), None).unwrap();
    state.user_left(a.id, 500_000).unwrap();
    assert!(!state.room_shutdown_gracefully(id(ROOM), 0));
    assert!(!state.room_shutdown_gracefully(id(ROOM), 499_999));
}

#[test]
fn room_state_counts_seats_on_its_own() {
    let mut room = RoomState::new(video(), id(ROOM), "R".to_string(), 2);
    assert!(!room.user_left(5));
    assert_eq!(room.remaining_users(), 2);
    assert!(!room.is_due(u128::MAX));
    assert!(room.user_join());
    assert!(room.user_join());
    assert!(!room.user_join());
    assert_eq!(room.remaining_users(), 0);
    assert!(room.user_left(7));
    assert!(!room.user_left(8));
    assert!(!room.user_left(9));
    assert_eq!(room.remaining_users(), 2);
    assert!(room.is_due(8 + 120_000));
    assert!(!room.is_due(8 + 119_999));
    let copy = room.clone();
    assert_eq!((copy.remaining_users(), copy.max_users(), copy.name()), (2, 2, "R".to_string()));
}

#[test]
fn room_without_seats_is_full_and_empty() {
    let mut state = state_with_room(ROOM, 0);
    assert_eq!(state.verify_room(id(ROOM)).err(), Some(WebSocketStateError::RoomFull));
    assert_eq!(
        state.join_room(id(ROOM), "A".to_string(), None).err(),
        Some(WebSocketStateError::RoomFull)
    );
}

#[test]
fn kick_builds_a_protocol_close_for_a_registered_user() {
    let mut state = state_with_room(ROOM, 2);
    let a = state.join_room(id(ROOM), "A".to_string(), None).unwrap();
    match state.kick_user(a.id).unwrap() {
        WebSocketMessage::Close(Some(frame)) => {
            assert_eq!(frame.code, CloseCode::Protocol);
            assert_eq!(frame.reason, "Test");
        }
        _ => panic!("expected a close frame"),
    }
    assert_eq!(state.kick_user(id("user00000000000x")).err(), Some(WebSocketStateError::NoUser));
}

#[test]
fn frames_of_a_connection_change_the_room_of_its_user() {
    let mut state = state_with_room(ROOM, 2);
    let owner = state
        .join_room(id(ROOM), "O".to_string(), Some(Permission::from_bits(PERMISSION_ALL)))
        .unwrap();
    let guest = state.join_room(id(ROOM), "G".to_string(), None).unwrap();
    let mut owner_task = RecvTask::new();
    let mut guest_task = RecvTask::new();
    let step = state.recv(owner.id, &mut owner_task, Incoming::Text("||-=-||play-=-30".to_string()), 1_000);
    assert!(matches!(step, RecvStep::Continue(Some(reply)) if reply.audience == Audience::Room
        && reply.text == "||-=-||play-=-30000"));
    let room = state.get_room(id(ROOM)).unwrap();
    assert_eq!((room.data().get_time(), room.data().get_state()), (30_000, STATE_PLAY));
    let step = state.recv(guest.id, &mut guest_task, Incoming::Text("||-=-||state-=-30.9|.|1".to_string()), 3_000);
    assert!(matches!(step, RecvStep::Continue(Some(reply)) if reply.audience == Audience::Sender
        && reply.text == "||-=-||state_ok-=-"));
    let step = state.recv(guest.id, &mut guest_task, Incoming::Text("||-=-||pause-=-10".to_string()), 3_000);
    assert!(matches!(step, RecvStep::Continue(Some(reply)) if reply.audience == Audience::Sender
        && reply.text.starts_with("||-=-||video_data-=-{") && reply.text.contains("\"time\":32000")));
    let room = state.get_room(id(ROOM)).unwrap();
    assert_eq!((room.data().get_time(), room.data().get_state()), (32_000, STATE_PLAY));
    assert_eq!(room.remaining_users(), 0);
}

#[test]
fn frames_of_an_unknown_connection_stop_its_activity() {
    let mut state = state_with_room(ROOM, 2);
    let mut task = RecvTask::new();
    let step = state.recv(id("user00000000000x"), &mut task, Incoming::Timeout, 0);
    assert!(matches!(step, RecvStep::Stop));
    assert_eq!(task.missed_pings(), 0);
}

#[test]
fn guest_handshake_seats_the_guest() {
    let mut state = state_with_room(ROOM, 2);
    let first = Incoming::Text(format!("||-=-||join_room-=-{ROOM}|.|Ann"));
    let user = verify_join_msg(&mut state, first).unwrap();
    assert_eq!((user.name.as_str(), user.room_id.to_string()), ("Ann", ROOM.to_string()));
    assert_eq!(user.permission.bits(), 0);
    assert_eq!(state.get_room(id(ROOM)).unwrap().remaining_users(), 1);
}

#[test]
fn guest_handshake_reports_each_refusal() {
    let mut state = state_with_room(ROOM, 1);
    let join = |room: &str| Incoming::Text(format!("||-=-||join_room-=-{room}|.|Ann"));
    assert_eq!(verify_join_msg(&mut state, join("room000000000002")).err(), Some(ValidationError::NoRoom));
    assert_eq!(verify_join_msg(&mut state, Incoming::Other).err(), Some(ValidationError::InvalidPacket));
    assert_eq!(verify_join_msg(&mut state, Incoming::Close).err(), Some(ValidationError::InvalidPacket));
    let bad = Incoming::Text("||-=-||join_room-=-short|.|Ann".to_string());
    assert_eq!(verify_join_msg(&mut state, bad).err(), Some(ValidationError::InvalidPacket));
    let taken = id("user000000000001");
    assert!(verify_join_msg_as(&mut state, join(ROOM), taken).is_ok());
    assert_eq!(verify_join_msg(&mut state, join(ROOM)).err(), Some(ValidationError::RoomFull));
    assert_eq!(state.get_room(id(ROOM)).unwrap().remaining_users(), 0);
}

#[test]
fn guest_handshake_under_a_taken_identifier_is_an_invalid_packet() {
    let mut state = state_with_room(ROOM, 3);
    let join = || Incoming::Text(format!("||-=-||join_room-=-{ROOM}|.|Ann"));
    let taken = id("user000000000001");
    assert!(verify_join_msg_as(&mut state, join(), taken).is_ok());
    assert_eq!(verify_join_msg_as(&mut state, join(), taken).err(), Some(ValidationError::InvalidPacket));
    assert_eq!(state.get_room(id(ROOM)).unwrap().remaining_users(), 2);
}

#[test]
fn refusals_have_their_sentences() {
    assert_eq!(ValidationError::NoRoom.message(), "The specified room doesn't exist.");
    assert_eq!(ValidationError::RoomFull.message(), "The specified room is full.");
    assert_eq!(ValidationError::InvalidPacket.message(), "Invalid packet structure.");
    assert_eq!(ValidationError::from(WebSocketStateError::NoRoom), ValidationError::NoRoom);
    assert_eq!(ValidationError::from(WebSocketStateError::RoomFull), ValidationError::RoomFull);
    assert_eq!(ValidationError::from(WebSocketStateError::NoUser), ValidationError::InvalidPacket);
    assert_eq!(ValidationError::from(WebSocketStateError::IdInUse), ValidationError::InvalidPacket);
    assert_eq!(WebSocketStateError::MaxUserExceeded.message(), "Max user exceeded!");
    assert_eq!(WebSocketStateError::NoRoom.message(), "The spcified room doesn't exist.");
    assert_eq!(WebSocketStateError::RoomFull.message(), "The spcified room is full.");
    assert_eq!(WebSocketStateError::NoUser.message(), "The spcified user doesn't exist.");
    assert_eq!(WebSocketStateError::NoOwner.message(), "The spcified owner doesn't exist.");
}

fn owner_claim(room: &str) -> OwnerAuth {
    OwnerAuth::new("O".to_string(), id(room), "10.0.0.1".to_string(), "agent".to_string(), u128::MAX)
}

#[test]
fn owner_joins_without_a_join_packet_and_gets_every_permission() {
    let mut state = state_with_room(ROOM, 3);
    let user_id = id("user000000000001");
    let admission =
        validate_and_handle_client_as(&mut state, Some(owner_claim(ROOM)), Incoming::Timeout, user_id, 77);
    match admission {
        Admission::Joined { user, announce, snapshot } => {
            assert_eq!(user.name, "O");
            assert_eq!(user.permission.bits(), 3);
            assert_eq!(announce.audience, Audience::Room);
            assert_eq!(announce.text, "||-=-||joined-=-O|.|user000000000001");
            assert_eq!(snapshot.audience, Audience::Sender);
            assert_eq!(
                snapshot.text,
                "||-=-||video_data-=-{\"cc_url\":\"\",\"current_player\":1,\"permission\":3,\
                 \"state\":0,\"time\":0,\"url\":\"u\"}"
            );
        }
        _ => panic!("owner was not admitted"),
    }
    assert_eq!(state.get_room(id(ROOM)).unwrap().remaining_users(), 2);
}

#[test]
fn owner_of_a_missing_or_full_room_is_dropped_silently() {
    let mut state = state_with_room(ROOM, 1);
    let first = Incoming::Text(format!("||-=-||join_room-=-{ROOM}|.|Ann"));
    let admission = validate_and_handle_client(&mut state, Some(owner_claim("room000000000002")), first);
    assert!(matches!(admission, Admission::Dropped));
    assert_eq!(state.get_room(id(ROOM)).unwrap().remaining_users(), 1);
    state.join_room(id(ROOM), "A".to_string(), None).unwrap();
    let admission = validate_and_handle_client(&mut state, Some(owner_claim(ROOM)), Incoming::Other);
    assert!(matches!(admission, Admission::Dropped));
}

#[test]
fn silent_guest_is_dropped_and_wrong_guest_is_closed_with_a_reason() {
    let mut state = state_with_room(ROOM, 1);
    assert!(matches!(validate_and_handle_client(&mut state, None, Incoming::Timeout), Admission::Dropped));
    assert!(matches!(validate_and_handle_client(&mut state, None, Incoming::Ended), Admission::Dropped));
    let check = |admission: Admission, reason: &str| match admission {
        Admission::Rejected(WebSocketMessage::Close(Some(frame))) => {
            assert_eq!(frame.code, CloseCode::Error);
            assert_eq!(frame.reason, reason);
        }
        _ => panic!("expected a rejection"),
    };
    check(
        validate_and_handle_client(&mut state, None, Incoming::Text("hi".to_string())),
        "Invalid packet structure.",
    );
    check(validate_and_handle_client(&mut state, None, Incoming::Other), "Invalid packet structure.");
    let join = |room: &str| Incoming::Text(format!("||-=-||join_room-=-{room}|.|Ann"));
    check(
        validate_and_handle_client(&mut state, None, join("room000000000002")),
        "The specified room doesn't exist.",
    );
    assert!(matches!(
        validate_and_handle_client(&mut state, None, join(ROOM)),
        Admission::Joined { .. }
    ));
    check(validate_and_handle_client(&mut state, None, join(ROOM)), "The specified room is full.");
}

#[test]
fn two_guests_see_each_other_join_and_the_third_is_closed() {
    let mut state = state_with_room(ROOM, 2);
    let join = |name: &str| Incoming::Text(format!("||-=-||join_room-=-{ROOM}|.|{name}"));
    let mut announced = Vec::new();
    for name in ["A", "B"] {
        match validate_and_handle_client(&mut state, None, join(name)) {
            Admission::Joined { user, announce, .. } => {
                assert_eq!(announce.text, format!("||-=-||joined-=-{name}|.|{}", user.id.to_string()));
                announced.push(announce.into_frame());
            }
            _ => panic!("guest was not admitted"),
        }
    }
    assert_eq!(announced.len(), 2);
    assert_ne!(announced[0], announced[1]);
    match validate_and_handle_client(&mut state, None, join("C")) {
        Admission::Rejected(close) => {
            let bytes = close.into_server_shared_bytes();
            assert_eq!(&bytes[..4], &[0x88, 29, 0x03, 0xF3]);
            assert_eq!(&bytes[4..], b"The specified room is full.");
        }
        _ => panic!("third guest was not rejected"),
    }
}

#[test]
fn creator_comes_back_as_owner_without_a_join_packet() {
    let mut state = WsState::new();
    let (ip, agent) = ("10.0.0.1".to_string(), "agent".to_string());
    let request = CreateRoomPayload {
        name: "R".to_string(),
        creator_name: "O".to_string(),
        video_url: "u".to_string(),
        cc_url: "".to_string(),
        max_users: 3,
        global_control: false,
        player_index: 1,
    };
    let created = create(&mut state, request, ip.clone(), agent.clone()).ok().unwrap();
    assert_eq!(created.ws_path, "room/ws");
    let keys = Keys::new(b"k");
    let cookie = created.owner.encode(&keys).unwrap();

    let claim = OwnerAuth::from_token(&cookie, &keys).ok();
    let ticket = validate_cookie(&mut state, claim, &ip, &agent, &created.id).unwrap();
    let owner = checked_owner(&mut state, Some(&ticket.to_string()), &ip, &agent);
    assert!(owner.is_some());

    match validate_and_handle_client(&mut state, owner, Incoming::Timeout) {
        Admission::Joined { user, announce, snapshot } => {
            assert_eq!(user.name, "O");
            assert!(user.room_id.same(&created.id));
            assert_eq!(announce.text, format!("||-=-||joined-=-O|.|{}", user.id.to_string()));
            assert_eq!(
                snapshot.text,
                "||-=-||video_data-=-{\"cc_url\":\"\",\"current_player\":1,\"permission\":3,\
                 \"state\":0,\"time\":0,\"url\":\"u\"}"
            );
        }
        _ => panic!("owner was not admitted"),
    }
    assert_eq!(state.get_room(created.id).unwrap().remaining_users(), 2);
}

#[test]
fn guest_with_an_empty_name_is_announced_with_both_fields() {
    let mut state = state_with_room(ROOM, 2);
    let first = Incoming::Text(format!("||-=-||join_room-=-{ROOM}|.|"));
    let user_id = id("user000000000001");
    match validate_and_handle_client_as(&mut state, None, first, user_id, 0) {
        Admission::Joined { user, announce, .. } => {
            assert_eq!(user.name, "");
            assert_eq!(announce.text, "||-=-||joined-=-|.|user000000000001");
            assert_eq!(left_packet(&user).text, "||-=-||left-=-|.|user000000000001");
        }
        _ => panic!("guest was not admitted"),
    }
}

#[test]
fn identifiers_drawn_for_the_registry_are_url_safe_and_free() {
    let mut state = state_with_room(ROOM, 100);
    let url_safe = |text: &str| {
        text.len() == 16 && text.chars().all(|c| c.is_ascii_alphanumeric() || c == '_' || c == '-')
    };
    for _ in 0..20 {
        let user_id = state.new_user_id();
        assert!(url_safe(&user_id.to_string()));
        assert!(state.get_user(user_id).is_err());
        assert!(state.join_room_as(id(ROOM), user_id, "A".to_string(), None).is_ok());
        let room_id = state.new_room_id();
        assert!(url_safe(&room_id.to_string()));
        assert!(state.get_room(room_id).is_err());
        assert!(url_safe(&state.new_ticket_id().to_string()));
    }
    assert_eq!(state.get_room(id(ROOM)).unwrap().remaining_users(), 80);
}

#[test]
fn grace_left_counts_down_from_the_arming() {
    let mut room = RoomState::new(video(), id(ROOM), "R".to_string(), 1);
    assert_eq!(room.grace_left(0), None);
    assert!(room.user_join());
    assert_eq!(room.grace_left(0), None);
    assert!(!room.user_left(10_000));
    assert_eq!(room.grace_left(10_000), Some(120_000));
    assert_eq!(room.grace_left(10_001), Some(119_999));
    assert_eq!(room.grace_left(129_999), Some(1));
    assert_eq!(room.grace_left(130_000), Some(0));
    assert!(room.is_due(130_000));
    assert_eq!(room.grace_left(u128::MAX), Some(0));
    assert_eq!(room.grace_left(9_999), Some(120_000));
    assert_eq!(room.grace_left(0), Some(120_000));
    assert!(room.user_join());
    assert_eq!(room.grace_left(u128::MAX), None);
}
