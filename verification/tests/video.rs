use sturdy_spoon::ws_handler::{
    Permission, VideoData, CLIENT_TIMEOUT, MAX_VIDEO_LEN, PERMISSION_ALL, PERMISSION_CHANGER,
    PERMISSION_CONTROLLABLE, PERMISSION_RESTRICTED, PLAYER_MAX, STATE_MAX, STATE_PAUSE, STATE_PLAY,
    SYNC_TIMEOUT,
};

fn video(now: u128) -> VideoData {
    VideoData::new_at("https://v/1.mp4".to_string(), "https://v/1.vtt".to_string(), 1, now)
}

#[test]
fn constants_have_their_documented_values() {
    assert_eq!(CLIENT_TIMEOUT, 120_000);
    assert_eq!(SYNC_TIMEOUT, 5_000);
    assert_eq!(MAX_VIDEO_LEN, 14_400_000);
    assert_eq!(STATE_MAX, 1);
    assert_eq!(PLAYER_MAX, 1);
    assert_eq!(PERMISSION_ALL, 3);
}

#[test]
fn new_video_is_paused_at_zero_and_restricted() {
    let data = video(1_000);
    assert_eq!(data.get_url(), "https://v/1.mp4");
    assert_eq!(data.get_cc_url(), "https://v/1.vtt");
    assert_eq!(data.get_time(), 0);
    assert_eq!(data.get_state(), STATE_PAUSE);
    assert_eq!(data.get_current_player(), 1);
    assert_eq!(data.get_permission().bits(), PERMISSION_RESTRICTED);
    assert!(!data.has_permission(PERMISSION_CONTROLLABLE));
}

#[test]
fn new_video_from_clock_is_paused_at_zero() {
    let data = VideoData::new("u".to_string(), "c".to_string(), 0);
    assert_eq!(data.get_time(), 0);
    assert_eq!(data.get_state(), STATE_PAUSE);
    assert_eq!(data.get_current_player(), 0);
}

#[test]
fn setters_replace_single_fields() {
    let mut data = video(0);
    data.update_url("a".to_string());
    data.update_cc_url("b".to_string());
    data.set_current_player(0);
    assert_eq!(data.get_url(), "a");
    assert_eq!(data.get_cc_url(), "b");
    assert_eq!(data.get_current_player(), 0);
    assert_eq!(data.get_time(), 0);
}

#[test]
fn paused_video_does_not_move() {
    let mut data = video(0);
    data.set_time_at(5_000, 100);
    assert_eq!(data.projected_time(100), 5_000);
    assert_eq!(data.projected_time(1_000_000), 5_000);
    data.update_time_at(1_000_000);
    assert_eq!(data.get_time(), 5_000);
}

#[test]
fn playing_video_advances_with_the_clock() {
    let mut data = video(0);
    data.set_state_at(30_000, STATE_PLAY, 10_000);
    assert_eq!(data.projected_time(10_000), 30_000);
    assert_eq!(data.projected_time(12_000), 32_000);
    data.update_time_at(12_000);
    assert_eq!(data.get_time(), 32_000);
    assert_eq!(data.projected_time(12_500), 32_500);
    data.update_time_at(13_000);
    assert_eq!(data.get_time(), 33_000);
}

#[test]
fn projection_stops_at_the_longest_video() {
    let mut data = video(0);
    data.set_state_at(MAX_VIDEO_LEN - 10, STATE_PLAY, 0);
    assert_eq!(data.projected_time(5), MAX_VIDEO_LEN - 5);
    assert_eq!(data.projected_time(10), MAX_VIDEO_LEN);
    assert_eq!(data.projected_time(u128::MAX), MAX_VIDEO_LEN);
    data.update_time_at(u128::MAX);
    assert_eq!(data.get_time(), MAX_VIDEO_LEN);
}

#[test]
fn clock_running_backwards_never_moves_the_position_back() {
    let mut data = video(0);
    data.set_state_at(1_000, STATE_PLAY, 50_000);
    assert_eq!(data.projected_time(40_000), 1_000);
    data.update_time_at(40_000);
    assert_eq!(data.get_time(), 1_000);
    assert_eq!(data.projected_time(41_000), 2_000);
}

#[test]
fn projection_never_falls_below_stored_position_while_playing() {
    let mut data = video(0);
    data.set_state_at(7_000, STATE_PLAY, 1_000);
    let mut last = data.get_time();
    for now in [0u128, 999, 1_000, 1_001, 2_000, 10_000, 14_400_000, u128::MAX] {
        let projected = data.projected_time(now);
        assert!(projected >= data.get_time());
        assert!(projected <= MAX_VIDEO_LEN);
        if now >= 1_000 {
            assert!(projected >= last);
            last = projected;
        }
    }
}

#[test]
fn set_state_and_set_time_write_what_they_are_given() {
    let mut data = video(0);
    data.set_state(9_000, STATE_PLAY);
    assert_eq!(data.get_state(), STATE_PLAY);
    assert_eq!(data.get_time(), 9_000);
    data.set_time(4_000);
    assert_eq!(data.get_time(), 4_000);
    assert_eq!(data.get_state(), STATE_PLAY);
    data.set_state(0, STATE_PAUSE);
    data.update_time();
    assert_eq!(data.get_time(), 0);
}

#[test]
fn permission_bits_are_set_and_cleared() {
    let mut permission = Permission::default();
    assert_eq!(permission.bits(), 0);
    assert!(permission.has_permission(PERMISSION_RESTRICTED));
    assert!(!permission.has_permission(PERMISSION_CONTROLLABLE));
    permission.set_permission(PERMISSION_CONTROLLABLE);
    assert!(permission.has_permission(PERMISSION_CONTROLLABLE));
    assert!(!permission.has_permission(PERMISSION_CHANGER));
    assert!(!permission.has_permission(PERMISSION_ALL));
    permission.set_permission(PERMISSION_CHANGER);
    assert!(permission.has_permission(PERMISSION_ALL));
    permission.clear_permission(PERMISSION_CONTROLLABLE);
    assert_eq!(permission.bits(), PERMISSION_CHANGER);
    assert_eq!(Permission::from_bits(3).bits(), 3);
}

#[test]
fn video_permission_follows_its_bits() {
    let mut data = video(0);
    data.set_permission(PERMISSION_CONTROLLABLE);
    assert!(data.has_permission(PERMISSION_CONTROLLABLE));
    assert_eq!(data.get_permission().bits(), 1);
    data.set_permission(PERMISSION_CHANGER);
    assert_eq!(data.get_permission().bits(), 3);
    data.clear_permission(PERMISSION_CONTROLLABLE);
    assert!(!data.has_permission(PERMISSION_CONTROLLABLE));
    assert!(data.has_permission(PERMISSION_CHANGER));
}

#[test]
fn clone_keeps_every_field() {
    let mut data = video(5);
    data.set_state_at(77, STATE_PLAY, 9);
    data.set_permission(PERMISSION_ALL);
    let copy = data.clone();
    assert_eq!(copy.get_url(), data.get_url());
    assert_eq!(copy.get_cc_url(), data.get_cc_url());
    assert_eq!(copy.get_time(), 77);
    assert_eq!(copy.get_state(), STATE_PLAY);
    assert_eq!(copy.get_permission().bits(), 3);
    assert_eq!(copy.projected_time(10), 78);
}
