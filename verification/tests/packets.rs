use std::ops::ControlFlow;

use sturdy_spoon::common::text::{decimal_string, string_of, text_is};
use sturdy_spoon::ws_handler::fields::{parse_state, parse_time};
use sturdy_spoon::ws_handler::handshake::parse_join_request;
use sturdy_spoon::ws_handler::packet::{check_str_packet, split_args, StringPacket};

fn chars(text: &str) -> Vec<char> {
    text.chars().collect()
}

fn fields(text: &str) -> Vec<String> {
    split_args(&chars(text)).iter().map(string_of).collect()
}

#[test]
fn packet_builder_writes_wire_format() {
    let text = StringPacket::new("state").arg("1500").arg("1").into_string();
    assert_eq!(text, "||-=-||state-=-1500|.|1");
    assert_eq!(check_str_packet(&text), Some(("state", "1500|.|1")));
}

#[test]
fn packet_without_arguments_keeps_separator() {
    assert_eq!(StringPacket::new("state_ok").into_string(), "||-=-||state_ok-=-");
    assert_eq!(check_str_packet("||-=-||state_ok-=-"), Some(("state_ok", "")));
}

#[test]
fn packet_builder_writes_separator_after_an_empty_argument() {
    let text = StringPacket::new("joined").arg("").arg("U1").into_string();
    assert_eq!(text, "||-=-||joined-=-|.|U1");
    assert_eq!(StringPacket::new("joined").arg("").arg("abc").into_string(), "||-=-||joined-=-|.|abc");
    assert_eq!(StringPacket::new("joined").arg("O").arg("U1").into_string(), "||-=-||joined-=-O|.|U1");
    assert_eq!(StringPacket::new("t").arg("").arg("").arg("").into_string(), "||-=-||t-=-|.||.|");
    assert_eq!(StringPacket::new("t").arg("").into_string(), "||-=-||t-=-");
    assert_eq!(StringPacket::new("t").arg("a").arg("").into_string(), "||-=-||t-=-a|.|");
}

#[test]
fn empty_arguments_survive_the_round_trip() {
    for args in [vec!["", "U1"], vec!["", ""], vec!["a", "", "b"], vec![""]] {
        let mut packet = StringPacket::new("joined");
        for arg in &args {
            packet = packet.arg(arg);
        }
        let text = packet.into_string();
        let (kind, data) = check_str_packet(&text).unwrap();
        assert_eq!(kind, "joined");
        assert_eq!(fields(data), args);
    }
}

#[test]
fn packet_builder_uses_custom_separator() {
    let text = StringPacket::new("t").arg_sep(",").arg("a").arg("b").arg("c").into_string();
    assert_eq!(text, "||-=-||t-=-a,b,c");
}

#[test]
fn decoder_rejects_text_without_header() {
    assert_eq!(check_str_packet("state-=-1|.|1"), None);
    assert_eq!(check_str_packet(""), None);
    assert_eq!(check_str_packet("||-=-|state-=-1"), None);
}

#[test]
fn decoder_rejects_packet_without_type_separator() {
    assert_eq!(check_str_packet("||-=-||state"), None);
    assert_eq!(check_str_packet("||-=-||"), None);
}

#[test]
fn decoder_stops_argument_text_at_second_type_separator() {
    assert_eq!(check_str_packet("||-=-||seek-=-12-=-rest-=-more"), Some(("seek", "12")));
}

#[test]
fn decoder_takes_leftmost_type_separator() {
    assert_eq!(check_str_packet("||-=-||a-=-=-b"), Some(("a", "=-b")));
    assert_eq!(check_str_packet("||-=-||-=-x"), Some(("", "x")));
}

#[test]
fn decoder_keeps_non_ascii_text() {
    assert_eq!(
        check_str_packet("||-=-||join_room-=-0123456789abcdef|.|Zoë ☕"),
        Some(("join_room", "0123456789abcdef|.|Zoë ☕"))
    );
}

#[test]
fn encode_then_decode_gives_type_and_arguments() {
    for (kind, args) in [("play", vec!["12.5"]), ("state", vec!["30.9", "1"]), ("left", vec!["Ann", "id"])] {
        let mut packet = StringPacket::new(kind);
        for arg in &args {
            packet = packet.arg(arg);
        }
        let text = packet.into_string();
        let (decoded_kind, data) = check_str_packet(&text).unwrap();
        assert_eq!(decoded_kind, kind);
        assert_eq!(fields(data), args);
    }
}

#[test]
fn arguments_split_at_every_separator() {
    assert_eq!(fields("a|.|b|.|c"), vec!["a", "b", "c"]);
    assert_eq!(fields(""), vec![""]);
    assert_eq!(fields("|.|"), vec!["", ""]);
    assert_eq!(fields("a|.|"), vec!["a", ""]);
    assert_eq!(fields("a|.b"), vec!["a|.b"]);
    assert_eq!(fields("a|.|.|b"), vec!["a", ".|b"]);
}

#[test]
fn time_is_seconds_turned_into_whole_milliseconds() {
    assert_eq!(parse_time(Some("60.25")), ControlFlow::Continue(60250));
    assert_eq!(parse_time(Some("30.9")), ControlFlow::Continue(30900));
    assert_eq!(parse_time(Some("10")), ControlFlow::Continue(10000));
    assert_eq!(parse_time(Some("0")), ControlFlow::Continue(0));
    assert_eq!(parse_time(Some("0.0009")), ControlFlow::Continue(0));
    assert_eq!(parse_time(Some("1.2345")), ControlFlow::Continue(1234));
    assert_eq!(parse_time(Some("1.")), ControlFlow::Continue(1000));
    assert_eq!(parse_time(Some(".5")), ControlFlow::Continue(500));
    assert_eq!(parse_time(Some("+2.05")), ControlFlow::Continue(2050));
    assert_eq!(parse_time(Some("007")), ControlFlow::Continue(7000));
}

#[test]
fn negative_time_counts_as_zero() {
    assert_eq!(parse_time(Some("-5")), ControlFlow::Continue(0));
    assert_eq!(parse_time(Some("-0.001")), ControlFlow::Continue(0));
    assert_eq!(parse_time(Some("-99999999999999999999")), ControlFlow::Continue(0));
}

#[test]
fn time_at_the_longest_video_is_accepted_and_beyond_is_rejected() {
    assert_eq!(parse_time(Some("14400")), ControlFlow::Continue(14_400_000));
    assert_eq!(parse_time(Some("14400.000")), ControlFlow::Continue(14_400_000));
    assert_eq!(parse_time(Some("14399.999")), ControlFlow::Continue(14_399_999));
    assert_eq!(parse_time(Some("14400.001")), ControlFlow::Break(true));
    assert_eq!(parse_time(Some("14401")), ControlFlow::Break(true));
    assert_eq!(parse_time(Some("123456789012345678901234567890")), ControlFlow::Break(true));
}

#[test]
fn malformed_or_missing_time_is_no_heartbeat() {
    assert_eq!(parse_time(None), ControlFlow::Break(false));
    for text in ["", ".", "+", "-", "abc", "1.2.3", "1,5", " 1", "1 ", "1e3", "0x10", "1.5s", "--1"] {
        assert_eq!(parse_time(Some(text)), ControlFlow::Break(false), "{text:?}");
    }
}

#[test]
fn state_is_pause_or_play() {
    assert_eq!(parse_state(Some("0")), ControlFlow::Continue(0));
    assert_eq!(parse_state(Some("1")), ControlFlow::Continue(1));
    assert_eq!(parse_state(Some("+1")), ControlFlow::Continue(1));
    assert_eq!(parse_state(Some("001")), ControlFlow::Continue(1));
}

#[test]
fn state_above_the_largest_is_rejected() {
    assert_eq!(parse_state(Some("2")), ControlFlow::Break(true));
    assert_eq!(parse_state(Some("255")), ControlFlow::Break(true));
}

#[test]
fn malformed_or_missing_state_is_no_heartbeat() {
    assert_eq!(parse_state(None), ControlFlow::Break(false));
    for text in ["", "+", "-1", "256", "1.0", "one", " 1", "99999999999999999999"] {
        assert_eq!(parse_state(Some(text)), ControlFlow::Break(false), "{text:?}");
    }
}

#[test]
fn decimal_notation_of_numbers() {
    assert_eq!(decimal_string(0), "0");
    assert_eq!(decimal_string(7), "7");
    assert_eq!(decimal_string(60250), "60250");
    assert_eq!(decimal_string(u64::MAX), "18446744073709551615");
}

#[test]
fn text_comparison_is_exact() {
    assert!(text_is(&chars("play"), "play"));
    assert!(!text_is(&chars("play"), "plaY"));
    assert!(!text_is(&chars("play"), "player"));
    assert!(text_is(&chars(""), ""));
}

#[test]
fn join_request_names_room_and_user() {
    let (room, name) = parse_join_request("||-=-||join_room-=-0123456789abcdef|.|Ann").unwrap();
    assert_eq!(room.to_string(), "0123456789abcdef");
    assert_eq!(name, "Ann");
    let (_, name) = parse_join_request("||-=-||join_room-=-0123456789abcdef|.|Ann|.|x").unwrap();
    assert_eq!(name, "Ann");
}

#[test]
fn join_request_needs_type_identifier_and_name() {
    assert!(parse_join_request("||-=-||join-=-0123456789abcdef|.|Ann").is_none());
    assert!(parse_join_request("||-=-||join_room-=-0123456789abcdef").is_none());
    assert!(parse_join_request("||-=-||join_room-=-short|.|Ann").is_none());
    assert!(parse_join_request("||-=-||join_room-=-0123456789abcdefg|.|Ann").is_none());
    assert!(parse_join_request("join_room-=-0123456789abcdef|.|Ann").is_none());
}
