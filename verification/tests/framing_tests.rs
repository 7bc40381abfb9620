use peer_session::channel::{ChannelRegistry, ChannelSpec, ReliabilityMode};
use peer_session::errors::FrameError;
use peer_session::framing::{decode_frame, encode_frame};

fn registry_with(id: u32) -> ChannelRegistry {
    let mut reg = ChannelRegistry::new();
    let spec = ChannelSpec {
        channel_id: id,
        mode: ReliabilityMode::Unreliable,
        message_buffer_count: 8,
        packet_buffer_count: 64,
    };
    assert!(reg.register(spec).is_ok());
    reg
}

#[test]
fn encode_exact_bytes() {
    let payload: Vec<u8> = vec![0xAB];
    let wire = encode_frame(3, &payload, 64).unwrap();
    assert_eq!(wire, vec![3, 0, 0, 0, 1, 0, 0, 0, 0xAB]);
}

#[test]
fn encode_empty_payload() {
    let payload: Vec<u8> = Vec::new();
    let wire = encode_frame(260, &payload, 64).unwrap();
    // 260 = 0x0104 little-endian: bytes 4, 1, 0, 0.
    assert_eq!(wire, vec![4, 1, 0, 0, 0, 0, 0, 0]);
}

#[test]
fn round_trip_returns_the_encoded_pair() {
    let reg = registry_with(9);
    let payload: Vec<u8> = b"hello peer".to_vec();
    let wire = encode_frame(9, &payload, 64).unwrap();
    let (channel, decoded) = decode_frame(&wire, &reg).unwrap();
    assert_eq!(channel, 9);
    assert_eq!(decoded, payload);
}

#[test]
fn round_trip_at_configured_maximum() {
    let reg = registry_with(9);
    let payload: Vec<u8> = vec![7u8; 64];
    let wire = encode_frame(9, &payload, 64).unwrap();
    let (channel, decoded) = decode_frame(&wire, &reg).unwrap();
    assert_eq!(channel, 9);
    assert_eq!(decoded, payload);
}

#[test]
fn oversize_payload_rejected_before_transmission() {
    let payload: Vec<u8> = vec![0u8; 65];
    assert_eq!(encode_frame(9, &payload, 64), Err(FrameError::PayloadTooLarge));
}

#[test]
fn truncated_header_is_malformed() {
    let reg = registry_with(9);
    let wire: Vec<u8> = vec![9, 0, 0, 0, 1, 0, 0];
    assert_eq!(decode_frame(&wire, &reg), Err(FrameError::MalformedFrame));
}

#[test]
fn wrong_declared_length_is_malformed() {
    let reg = registry_with(9);
    // Declares 2 payload bytes but carries 1.
    let wire: Vec<u8> = vec![9, 0, 0, 0, 2, 0, 0, 0, 0xAA];
    assert_eq!(decode_frame(&wire, &reg), Err(FrameError::MalformedFrame));
}

#[test]
fn unknown_channel_is_dropped_not_malformed() {
    let reg = registry_with(9);
    let payload: Vec<u8> = vec![1, 2, 3];
    let wire = encode_frame(8, &payload, 64).unwrap();
    assert_eq!(decode_frame(&wire, &reg), Err(FrameError::UnknownChannel));
}
