use sturdy_spoon::sturdy_ws::ws::sign;
use sturdy_spoon::sturdy_ws::ws_message::{CloseCode, CloseFrame, WebSocketMessage};

#[test]
fn text_message_is_one_unmasked_final_frame() {
    let bytes = WebSocketMessage::Text("Hello".to_string()).into_server_shared_bytes();
    assert_eq!(bytes, vec![0x81, 0x05, b'H', b'e', b'l', b'l', b'o']);
}

#[test]
fn empty_text_message_has_empty_payload() {
    assert_eq!(WebSocketMessage::Text(String::new()).into_server_shared_bytes(), vec![0x81, 0x00]);
}

#[test]
fn text_payload_is_utf8() {
    let bytes = WebSocketMessage::Text("é☕".to_string()).into_server_shared_bytes();
    assert_eq!(bytes, vec![0x81, 0x05, 0xC3, 0xA9, 0xE2, 0x98, 0x95]);
}

#[test]
fn binary_message_has_binary_opcode() {
    let bytes = WebSocketMessage::Binary(vec![1, 2, 3]).into_server_shared_bytes();
    assert_eq!(bytes, vec![0x82, 0x03, 1, 2, 3]);
}

#[test]
fn payload_of_125_bytes_uses_short_length() {
    let bytes = WebSocketMessage::Binary(vec![7; 125]).into_server_shared_bytes();
    assert_eq!(bytes.len(), 2 + 125);
    assert_eq!(&bytes[..2], &[0x82, 125]);
}

#[test]
fn payload_of_126_bytes_uses_two_length_bytes() {
    let bytes = WebSocketMessage::Binary(vec![7; 126]).into_server_shared_bytes();
    assert_eq!(bytes.len(), 4 + 126);
    assert_eq!(&bytes[..4], &[0x82, 126, 0x00, 0x7E]);
    let bytes = WebSocketMessage::Binary(vec![7; 65_535]).into_server_shared_bytes();
    assert_eq!(&bytes[..4], &[0x82, 126, 0xFF, 0xFF]);
    assert_eq!(bytes.len(), 4 + 65_535);
}

#[test]
fn payload_of_65536_bytes_uses_eight_length_bytes() {
    let bytes = WebSocketMessage::Binary(vec![9; 65_536]).into_server_shared_bytes();
    assert_eq!(&bytes[..10], &[0x82, 127, 0, 0, 0, 0, 0, 1, 0, 0]);
    assert_eq!(bytes.len(), 10 + 65_536);
    assert!(bytes[10..].iter().all(|b| *b == 9));
}

#[test]
fn close_message_carries_status_and_reason() {
    let frame = CloseFrame { code: CloseCode::Error, reason: "full".to_string() };
    let bytes = WebSocketMessage::Close(Some(frame)).into_server_shared_bytes();
    assert_eq!(bytes, vec![0x88, 0x06, 0x03, 0xF3, b'f', b'u', b'l', b'l']);
    let frame = CloseFrame { code: CloseCode::Protocol, reason: "Test".to_string() };
    let bytes = WebSocketMessage::Close(Some(frame)).into_server_shared_bytes();
    assert_eq!(bytes, vec![0x88, 0x06, 0x03, 0xEA, b'T', b'e', b's', b't']);
}

#[test]
fn close_message_without_frame_is_empty() {
    assert_eq!(WebSocketMessage::Close(None).into_server_shared_bytes(), vec![0x88, 0x00]);
}

#[test]
fn close_codes_have_their_numbers() {
    assert_eq!(CloseCode::Normal.code(), 1000);
    assert_eq!(CloseCode::Away.code(), 1001);
    assert_eq!(CloseCode::Protocol.code(), 1002);
    assert_eq!(CloseCode::Error.code(), 1011);
    assert_eq!(CloseCode::Other(4000).code(), 4000);
}

#[test]
fn client_frame_is_masked_with_the_given_key() {
    let bytes = WebSocketMessage::Text("Hello".to_string())
        .into_client_shared_bytes_with([0x37, 0xfa, 0x21, 0x3d]);
    assert_eq!(bytes, vec![0x81, 0x85, 0x37, 0xfa, 0x21, 0x3d, 0x7f, 0x9f, 0x4d, 0x51, 0x58]);
}

#[test]
fn client_frame_with_long_payload_sets_mask_bit_on_length() {
    let bytes = WebSocketMessage::Binary(vec![0xAA; 300]).into_client_shared_bytes_with([1, 2, 3, 4]);
    assert_eq!(&bytes[..8], &[0x82, 0xFE, 0x01, 0x2C, 1, 2, 3, 4]);
    assert_eq!(bytes.len(), 8 + 300);
    assert_eq!(&bytes[8..13], &[0xAB, 0xA8, 0xA9, 0xAE, 0xAB]);
}

#[test]
fn client_frame_with_random_mask_unmasks_to_the_payload() {
    let payload = b"watch together".to_vec();
    let bytes = WebSocketMessage::Binary(payload.clone()).into_client_shared_bytes();
    assert_eq!(bytes[0], 0x82);
    assert_eq!(bytes[1], 0x80 | payload.len() as u8);
    let mask = [bytes[2], bytes[3], bytes[4], bytes[5]];
    let unmasked: Vec<u8> = bytes[6..].iter().enumerate().map(|(i, b)| b ^ mask[i % 4]).collect();
    assert_eq!(unmasked, payload);
}

#[test]
fn accept_key_of_the_protocol_sample() {
    assert_eq!(sign(b"dGhlIHNhbXBsZSBub25jZQ=="), "s3pPLMBiTxaQ9kYGzzhZRbK+xOo=");
}

#[test]
fn accept_key_depends_on_the_request_key() {
    assert_eq!(sign(b"x3JJHMbDL1EzLkh9GBhXDw=="), "HSmrc0sMlYUkAGmm5OPpG2HaGWk=");
    assert_ne!(sign(b""), sign(b"a"));
}
