use sturdy_spoon::ws_handler::user_state::{
    after_write, process_normal_message, process_privileged_message, video_data_json, Audience,
    Incoming, Outcome, RecvStep, RecvTask, SendStep, WriteResult, MAX_MISSED_PING,
};
use sturdy_spoon::ws_handler::{
    Permission, VideoData, PERMISSION_ALL, PERMISSION_CONTROLLABLE, PERMISSION_RESTRICTED,
    STATE_PAUSE, STATE_PLAY,
};

fn video() -> VideoData {
    VideoData::new_at("u".to_string(), "".to_string(), 1, 0)
}

fn playing(time: usize, since: u128) -> VideoData {
    let mut data = video();
    data.set_state_at(time, STATE_PLAY, since);
    data
}

fn reply_of(outcome: &Outcome) -> Option<(Audience, &str)> {
    outcome.reply.as_ref().map(|reply| (reply.audience, reply.text.as_str()))
}

#[test]
fn owner_seek_is_written_and_broadcast_in_milliseconds() {
    let mut data = video();
    let outcome = process_privileged_message("||-=-||seek-=-60.25", &mut data, 500);
    assert!(outcome.processed);
    assert_eq!(reply_of(&outcome), Some((Audience::Room, "||-=-||seek-=-60250")));
    assert_eq!(data.get_time(), 60_250);
    assert_eq!(data.get_state(), STATE_PAUSE);
    assert_eq!(data.projected_time(10_000), 60_250);
}

#[test]
fn owner_play_and_pause_write_position_and_state() {
    let mut data = video();
    let outcome = process_privileged_message("||-=-||play-=-12", &mut data, 1_000);
    assert_eq!(reply_of(&outcome), Some((Audience::Room, "||-=-||play-=-12000")));
    assert_eq!((data.get_time(), data.get_state()), (12_000, STATE_PLAY));
    assert_eq!(data.projected_time(1_500), 12_500);
    let outcome = process_privileged_message("||-=-||pause-=-13.5", &mut data, 2_000);
    assert_eq!(reply_of(&outcome), Some((Audience::Room, "||-=-||pause-=-13500")));
    assert_eq!((data.get_time(), data.get_state()), (13_500, STATE_PAUSE));
}

#[test]
fn play_pause_play_ends_playing_at_the_last_position() {
    let mut data = video();
    let frames = ["||-=-||play-=-1", "||-=-||pause-=-2", "||-=-||play-=-3"];
    let mut last = None;
    for (i, frame) in frames.iter().enumerate() {
        let outcome = process_privileged_message(frame, &mut data, 100 * i as u128);
        last = outcome.reply.map(|reply| (reply.audience, reply.text));
    }
    assert_eq!(last, Some((Audience::Room, "||-=-||play-=-3000".to_string())));
    assert_eq!((data.get_time(), data.get_state()), (3_000, STATE_PLAY));
}

#[test]
fn owner_state_report_out_of_sync_is_written_and_broadcast() {
    let mut data = video();
    let outcome = process_privileged_message("||-=-||state-=-30|.|1", &mut data, 7);
    assert!(outcome.processed);
    assert_eq!(reply_of(&outcome), Some((Audience::Room, "||-=-||state-=-30000|.|1")));
    assert_eq!((data.get_time(), data.get_state()), (30_000, STATE_PLAY));
}

#[test]
fn repeated_state_report_is_deduplicated_to_state_ok() {
    let mut data = video();
    let first = process_privileged_message("||-=-||state-=-30|.|1", &mut data, 1_000);
    assert_eq!(reply_of(&first).map(|reply| reply.0), Some(Audience::Room));
    let second = process_privileged_message("||-=-||state-=-30|.|1", &mut data, 6_000);
    assert!(second.processed);
    assert_eq!(reply_of(&second), Some((Audience::Sender, "||-=-||state_ok-=-")));
    assert_eq!(data.get_time(), 30_000);
    let third = process_privileged_message("||-=-||state-=-30|.|1", &mut data, 6_001);
    assert_eq!(reply_of(&third), Some((Audience::Room, "||-=-||state-=-30000|.|1")));
}

#[test]
fn repeated_play_is_broadcast_every_time() {
    let mut data = video();
    let first = process_privileged_message("||-=-||play-=-10", &mut data, 0);
    let second = process_privileged_message("||-=-||play-=-10", &mut data, 1);
    assert_eq!(reply_of(&first), Some((Audience::Room, "||-=-||play-=-10000")));
    assert_eq!(reply_of(&second), Some((Audience::Room, "||-=-||play-=-10000")));
}

#[test]
fn drift_of_exactly_the_sync_timeout_is_in_sync() {
    let mut data = playing(30_000, 0);
    let outcome = process_privileged_message("||-=-||state-=-35|.|1", &mut data, 0);
    assert_eq!(reply_of(&outcome), Some((Audience::Sender, "||-=-||state_ok-=-")));
    let outcome = process_privileged_message("||-=-||state-=-35.001|.|1", &mut data, 0);
    assert_eq!(reply_of(&outcome), Some((Audience::Room, "||-=-||state-=-35001|.|1")));
    let mut data = playing(30_000, 0);
    let outcome = process_privileged_message("||-=-||state-=-24.999|.|1", &mut data, 0);
    assert_eq!(reply_of(&outcome), Some((Audience::Room, "||-=-||state-=-24999|.|1")));
}

#[test]
fn time_beyond_the_longest_video_is_received_but_not_applied() {
    for kind in ["state", "seek", "play", "pause"] {
        let mut data = playing(1_000, 0);
        let frame = format!("||-=-||{kind}-=-14400.001|.|1");
        let outcome = process_privileged_message(&frame, &mut data, 0);
        assert!(outcome.processed);
        assert!(outcome.reply.is_none());
        assert_eq!((data.get_time(), data.get_state()), (1_000, STATE_PLAY));
    }
}

#[test]
fn state_above_the_largest_is_received_but_not_applied() {
    let mut data = video();
    let outcome = process_privileged_message("||-=-||state-=-5|.|2", &mut data, 0);
    assert!(outcome.processed);
    assert!(outcome.reply.is_none());
    assert_eq!((data.get_time(), data.get_state()), (0, STATE_PAUSE));
    let outcome = process_normal_message("||-=-||state-=-5|.|2", &data, 0, 0);
    assert!(outcome.processed);
    assert!(outcome.reply.is_none());
}

#[test]
fn malformed_frames_are_ignored() {
    let frames = [
        "",
        "hello",
        "||-=-||seek",
        "||-=-||seek-=-",
        "||-=-||seek-=-abc",
        "||-=-||state-=-5",
        "||-=-||state-=-5|.|",
        "||-=-||state-=-5|.|x",
        "||-=-||state-=-|.|1",
        "||-=-||volume-=-5",
        "||-=-||join_room-=-0123456789abcdef|.|Ann",
    ];
    for frame in frames {
        let mut data = playing(1_000, 0);
        let outcome = process_privileged_message(frame, &mut data, 0);
        assert!(!outcome.processed, "{frame:?}");
        assert!(outcome.reply.is_none(), "{frame:?}");
        assert_eq!((data.get_time(), data.get_state()), (1_000, STATE_PLAY));
    }
}

#[test]
fn guest_in_sync_gets_state_ok_only() {
    let data = playing(30_000, 10_000);
    let outcome = process_normal_message("||-=-||state-=-30.9|.|1", &data, 0, 12_000);
    assert!(outcome.processed);
    assert_eq!(reply_of(&outcome), Some((Audience::Sender, "||-=-||state_ok-=-")));
}

#[test]
fn guest_out_of_sync_gets_the_authoritative_state() {
    let data = playing(30_000, 10_000);
    let outcome = process_normal_message("||-=-||state-=-5|.|1", &data, 0, 12_000);
    assert_eq!(reply_of(&outcome), Some((Audience::Sender, "||-=-||state-=-32000|.|1")));
    let outcome = process_normal_message("||-=-||state-=-32|.|0", &data, 0, 12_000);
    assert_eq!(reply_of(&outcome), Some((Audience::Sender, "||-=-||state-=-32000|.|1")));
    assert_eq!(data.get_time(), 30_000);
}

#[test]
fn guest_control_is_answered_with_a_snapshot() {
    let data = playing(10_000, 0);
    for frame in ["||-=-||pause-=-10", "||-=-||play-=-x", "||-=-||seek-=-"] {
        let outcome = process_normal_message(frame, &data, PERMISSION_RESTRICTED, 2_000);
        assert!(outcome.processed);
        let expected = "||-=-||video_data-=-{\"cc_url\":\"\",\"current_player\":1,\
            \"permission\":0,\"state\":1,\"time\":12000,\"url\":\"u\"}";
        assert_eq!(reply_of(&outcome), Some((Audience::Sender, expected)));
    }
    assert_eq!((data.get_time(), data.get_state()), (10_000, STATE_PLAY));
}

#[test]
fn guest_frames_of_unknown_type_are_ignored() {
    let data = video();
    for frame in ["", "||-=-||volume-=-1", "||-=-||state", "||-=-||state-=-x|.|1"] {
        let outcome = process_normal_message(frame, &data, 0, 0);
        assert!(!outcome.processed);
        assert!(outcome.reply.is_none());
    }
}

#[test]
fn snapshot_is_compact_json_with_projected_time() {
    let mut data = VideoData::new_at("https://a/b?c=\"d\"".to_string(), "é".to_string(), 0, 0);
    data.set_state_at(1_500, STATE_PLAY, 1_000);
    assert_eq!(
        video_data_json(&data, PERMISSION_ALL, 1_250),
        "{\"cc_url\":\"é\",\"current_player\":0,\"permission\":3,\"state\":1,\"time\":1750,\
         \"url\":\"https://a/b?c=\\\"d\\\"\"}"
    );
}

#[test]
fn owner_snapshot_after_creation_reads_zero() {
    let data = video();
    assert_eq!(
        video_data_json(&data, PERMISSION_ALL, 99),
        "{\"cc_url\":\"\",\"current_player\":1,\"permission\":3,\"state\":0,\"time\":0,\"url\":\"u\"}"
    );
}

fn is_stop(step: &RecvStep) -> bool {
    matches!(step, RecvStep::Stop)
}

#[test]
fn receive_activity_stops_when_missed_heartbeats_exceed_the_limit() {
    let mut task = RecvTask::new();
    let mut data = video();
    let permission = Permission::from_bits(PERMISSION_CONTROLLABLE);
    for missed in 1..=MAX_MISSED_PING {
        let step = task.recv_task(Incoming::Timeout, &mut data, permission, 0);
        assert!(!is_stop(&step));
        assert_eq!(task.missed_pings(), missed);
    }
    let step = task.recv_task(Incoming::Timeout, &mut data, permission, 0);
    assert!(is_stop(&step));
    assert_eq!(task.missed_pings(), MAX_MISSED_PING + 1);
    let step = task.miss();
    assert!(is_stop(&step));
    assert_eq!(task.missed_pings(), MAX_MISSED_PING + 1);
}

#[test]
fn heartbeat_resets_missed_count() {
    let mut task = RecvTask::new();
    let mut data = video();
    let permission = Permission::from_bits(PERMISSION_ALL);
    task.recv_task(Incoming::Timeout, &mut data, permission, 0);
    task.recv_task(Incoming::Other, &mut data, permission, 0);
    assert_eq!(task.missed_pings(), 2);
    let step = task.recv_task(Incoming::Text("bogus".to_string()), &mut data, permission, 0);
    assert!(matches!(step, RecvStep::Continue(None)));
    assert_eq!(task.missed_pings(), 2);
    let step = task.recv_task(Incoming::Text("||-=-||seek-=-99999".to_string()), &mut data, permission, 0);
    assert!(matches!(step, RecvStep::Continue(None)));
    assert_eq!(task.missed_pings(), 0);
}

#[test]
fn close_and_end_of_stream_stop_the_activity() {
    let mut task = RecvTask::new();
    let mut data = playing(1_000, 0);
    let permission = Permission::from_bits(PERMISSION_RESTRICTED);
    assert!(is_stop(&task.recv_task(Incoming::Ended, &mut data, permission, 500)));
    assert_eq!(data.get_time(), 1_000);
    assert!(is_stop(&task.recv_task(Incoming::Close, &mut data, permission, 500)));
    assert_eq!(data.get_time(), 1_500);
    assert_eq!(task.missed_pings(), 0);
}

#[test]
fn receive_activity_refreshes_position_before_handling_a_frame() {
    let mut task = RecvTask::new();
    let mut data = playing(30_000, 0);
    let guest = Permission::from_bits(PERMISSION_RESTRICTED);
    let step = task.recv_task(Incoming::Text("||-=-||state-=-30.9|.|1".to_string()), &mut data, guest, 2_000);
    match step {
        RecvStep::Continue(Some(reply)) => {
            assert_eq!(reply.audience, Audience::Sender);
            assert_eq!(reply.text, "||-=-||state_ok-=-");
        }
        _ => panic!("expected a reply"),
    }
    assert_eq!(data.get_time(), 32_000);
}

#[test]
fn receive_activity_dispatches_on_the_controllable_bit() {
    let frame = "||-=-||pause-=-10";
    let mut task = RecvTask::new();
    let mut data = playing(0, 0);
    let step = task.recv_task(Incoming::Text(frame.to_string()), &mut data, Permission::from_bits(2), 0);
    assert!(matches!(step, RecvStep::Continue(Some(reply)) if reply.audience == Audience::Sender));
    assert_eq!(data.get_state(), STATE_PLAY);
    let step = task.recv_task(Incoming::Text(frame.to_string()), &mut data, Permission::from_bits(1), 0);
    assert!(matches!(step, RecvStep::Continue(Some(reply)) if reply.audience == Audience::Room));
    assert_eq!((data.get_time(), data.get_state()), (10_000, STATE_PAUSE));
}

#[test]
fn reply_turns_into_message_and_frame() {
    let mut data = video();
    let outcome = process_privileged_message("||-=-||seek-=-1", &mut data, 0);
    let reply = outcome.reply.unwrap();
    let mut expected = vec![0x81, 18];
    expected.extend_from_slice(b"||-=-||seek-=-1000");
    assert_eq!(reply.into_frame(), expected);
    let outcome = process_privileged_message("||-=-||seek-=-1", &mut data, 0);
    match outcome.reply.unwrap().into_message() {
        sturdy_spoon::sturdy_ws::ws_message::WebSocketMessage::Text(text) => {
            assert_eq!(text, "||-=-||seek-=-1000")
        }
        _ => panic!("expected a text message"),
    }
}

#[test]
fn blocked_socket_drops_broadcasts_and_requeues_direct_messages() {
    assert_eq!(after_write(Audience::Room, WriteResult::Written), SendStep::Continue);
    assert_eq!(after_write(Audience::Sender, WriteResult::Written), SendStep::Continue);
    assert_eq!(after_write(Audience::Room, WriteResult::WouldBlock), SendStep::Continue);
    assert_eq!(after_write(Audience::Sender, WriteResult::WouldBlock), SendStep::Requeue);
    assert_eq!(after_write(Audience::Room, WriteResult::Failed), SendStep::Stop);
    assert_eq!(after_write(Audience::Sender, WriteResult::Failed), SendStep::Stop);
}
