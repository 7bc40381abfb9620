use peer_session::channel::{ChannelSpec, ReliabilityMode, MAX_BUFFER_LIMIT};
use peer_session::errors::{ChannelError, NetError, TransportError};
use peer_session::framing::encode_frame;
use peer_session::link::TransportKind;
use peer_session::session::{ConnectConfig, ListenConfig, Session};

fn spec(id: u32, mode: ReliabilityMode, messages: usize, bytes: usize) -> ChannelSpec {
    ChannelSpec {
        channel_id: id,
        mode,
        message_buffer_count: messages,
        packet_buffer_count: bytes,
    }
}

fn deliver(session: &mut Session, channel: u32, payload: &[u8]) {
    let wire = encode_frame(channel, &payload.to_vec(), MAX_BUFFER_LIMIT).unwrap();
    session.handle_incoming(&wire);
}

#[test]
fn register_then_drain_is_empty() {
    let mut s = Session::new_server();
    for id in 0..5u32 {
        assert!(s.register(spec(id, ReliabilityMode::Unreliable, 4, 64)).is_ok());
    }
    for id in 0..5u32 {
        assert_eq!(s.drain(id).unwrap(), Vec::<Vec<u8>>::new());
    }
}

#[test]
fn register_duplicate_id_fails() {
    let mut s = Session::new_server();
    assert!(s.register(spec(2, ReliabilityMode::Reliable, 4, 64)).is_ok());
    assert_eq!(
        s.register(spec(2, ReliabilityMode::Unreliable, 8, 32)),
        Err(ChannelError::DuplicateChannel)
    );
}

#[test]
fn register_invalid_buffer_sizes_fail() {
    let mut s = Session::new_server();
    assert_eq!(
        s.register(spec(0, ReliabilityMode::Unreliable, 0, 64)),
        Err(ChannelError::InvalidBufferSize)
    );
    assert_eq!(
        s.register(spec(0, ReliabilityMode::Unreliable, 4, 0)),
        Err(ChannelError::InvalidBufferSize)
    );
    assert_eq!(
        s.register(spec(0, ReliabilityMode::Unreliable, MAX_BUFFER_LIMIT + 1, 64)),
        Err(ChannelError::InvalidBufferSize)
    );
}

#[test]
fn register_after_listen_fails_with_registry_closed() {
    let mut s = Session::new_server();
    assert!(s.register(spec(0, ReliabilityMode::Unreliable, 4, 64)).is_ok());
    let config = ListenConfig {
        native_stream_addr: Some("127.0.0.1:9000".to_string()),
        native_datagram_addr: Some("127.0.0.1:9001".to_string()),
        bridge_control_addr: None,
        bridge_data_addr: None,
    };
    assert!(s.listen(&config).is_ok());
    assert_eq!(
        s.register(spec(1, ReliabilityMode::Unreliable, 4, 64)),
        Err(ChannelError::RegistryClosed)
    );
}

#[test]
fn listen_without_any_address_is_invalid() {
    let mut s = Session::new_server();
    let config = ListenConfig {
        native_stream_addr: None,
        native_datagram_addr: None,
        bridge_control_addr: None,
        bridge_data_addr: None,
    };
    assert_eq!(s.listen(&config), Err(TransportError::InvalidAddress));
}

#[test]
fn listen_with_empty_address_is_invalid() {
    let mut s = Session::new_server();
    let config = ListenConfig {
        native_stream_addr: Some(String::new()),
        native_datagram_addr: None,
        bridge_control_addr: None,
        bridge_data_addr: None,
    };
    assert_eq!(s.listen(&config), Err(TransportError::InvalidAddress));
}

#[test]
fn connect_with_empty_address_is_invalid() {
    let mut s = Session::new_client();
    let config = ConnectConfig { addr: String::new(), datagram_addr: None };
    assert_eq!(s.connect(&config), Err(TransportError::InvalidAddress));
}

#[test]
fn connect_closes_the_registry() {
    let mut s = Session::new_client();
    let config = ConnectConfig {
        addr: "127.0.0.1:9000".to_string(),
        datagram_addr: Some("127.0.0.1:9001".to_string()),
    };
    assert!(s.connect(&config).is_ok());
    assert_eq!(
        s.register(spec(0, ReliabilityMode::Unreliable, 4, 64)),
        Err(ChannelError::RegistryClosed)
    );
}

#[test]
fn drain_unregistered_channel_fails() {
    let mut s = Session::new_server();
    assert_eq!(s.drain(42), Err(NetError::UnregisteredChannel));
}

#[test]
fn drain_twice_first_full_then_empty() {
    let mut s = Session::new_server();
    assert!(s.register(spec(0, ReliabilityMode::Unreliable, 4, 64)).is_ok());
    deliver(&mut s, 0, b"one message");
    let first = s.drain(0).unwrap();
    assert_eq!(first, vec![b"one message".to_vec()]);
    let second = s.drain(0).unwrap();
    assert_eq!(second, Vec::<Vec<u8>>::new());
}

#[test]
fn bounded_buffer_evicts_oldest_first() {
    let mut s = Session::new_server();
    assert!(s.register(spec(0, ReliabilityMode::Unreliable, 4, 64)).is_ok());
    for m in ["m1", "m2", "m3", "m4", "m5", "m6"] {
        deliver(&mut s, 0, m.as_bytes());
    }
    let batch = s.drain(0).unwrap();
    assert_eq!(
        batch,
        vec![b"m3".to_vec(), b"m4".to_vec(), b"m5".to_vec(), b"m6".to_vec()]
    );
}

#[test]
fn incoming_for_unknown_channel_is_dropped() {
    let mut s = Session::new_server();
    assert!(s.register(spec(0, ReliabilityMode::Unreliable, 4, 64)).is_ok());
    deliver(&mut s, 1, b"stray");
    assert_eq!(s.drain(0).unwrap(), Vec::<Vec<u8>>::new());
}

#[test]
fn incoming_oversize_payload_is_dropped() {
    let mut s = Session::new_server();
    assert!(s.register(spec(0, ReliabilityMode::Unreliable, 4, 8)).is_ok());
    deliver(&mut s, 0, b"this payload is longer than eight bytes");
    assert_eq!(s.drain(0).unwrap(), Vec::<Vec<u8>>::new());
}

#[test]
fn incoming_malformed_frame_is_dropped() {
    let mut s = Session::new_server();
    assert!(s.register(spec(0, ReliabilityMode::Unreliable, 4, 64)).is_ok());
    let garbage: Vec<u8> = vec![0, 0, 0];
    s.handle_incoming(&garbage);
    assert_eq!(s.drain(0).unwrap(), Vec::<Vec<u8>>::new());
}

#[test]
fn broadcast_unregistered_produces_no_traffic() {
    let mut s = Session::new_server();
    assert!(s.register(spec(0, ReliabilityMode::Unreliable, 4, 64)).is_ok());
    s.add_link(TransportKind::NativeStream);
    let r = s.broadcast(&b"hello".to_vec(), 7);
    assert_eq!(r, Err(NetError::UnregisteredChannel));
    assert!(s.take_outbound().is_empty());
}

#[test]
fn broadcast_oversize_payload_fails() {
    let mut s = Session::new_server();
    assert!(s.register(spec(0, ReliabilityMode::Unreliable, 4, 4)).is_ok());
    s.add_link(TransportKind::NativeStream);
    let r = s.broadcast(&b"too long".to_vec(), 0);
    assert_eq!(r, Err(NetError::PayloadTooLarge));
    assert!(s.take_outbound().is_empty());
}

#[test]
fn broadcast_with_no_links_is_a_silent_success() {
    let mut s = Session::new_server();
    assert!(s.register(spec(0, ReliabilityMode::Unreliable, 4, 64)).is_ok());
    assert!(s.broadcast(&b"into the void".to_vec(), 0).is_ok());
    assert!(s.take_outbound().is_empty());
}

#[test]
fn reliable_broadcast_skips_datagram_links() {
    let mut s = Session::new_server();
    assert!(s.register(spec(1, ReliabilityMode::Reliable, 4, 64)).is_ok());
    let stream = s.add_link(TransportKind::NativeStream);
    let _datagram = s.add_link(TransportKind::NativeDatagram);
    let bridge = s.add_link(TransportKind::WebBridge);
    assert!(s.broadcast(&b"ordered".to_vec(), 1).is_ok());
    let out = s.take_outbound();
    let targets: Vec<u64> = out.iter().map(|f| f.link_id).collect();
    assert_eq!(targets, vec![stream, bridge]);
}

#[test]
fn unreliable_broadcast_prefers_datagram_links() {
    let mut s = Session::new_server();
    assert!(s.register(spec(0, ReliabilityMode::Unreliable, 4, 64)).is_ok());
    let _stream = s.add_link(TransportKind::NativeStream);
    let datagram = s.add_link(TransportKind::NativeDatagram);
    assert!(s.broadcast(&b"lossy".to_vec(), 0).is_ok());
    let out = s.take_outbound();
    let targets: Vec<u64> = out.iter().map(|f| f.link_id).collect();
    assert_eq!(targets, vec![datagram]);
}

#[test]
fn unreliable_broadcast_falls_back_to_stream() {
    let mut s = Session::new_server();
    assert!(s.register(spec(0, ReliabilityMode::Unreliable, 4, 64)).is_ok());
    let stream = s.add_link(TransportKind::NativeStream);
    assert!(s.broadcast(&b"fallback".to_vec(), 0).is_ok());
    let out = s.take_outbound();
    let targets: Vec<u64> = out.iter().map(|f| f.link_id).collect();
    assert_eq!(targets, vec![stream]);
}

#[test]
fn broadcast_frames_decode_back_to_the_payload() {
    let mut s = Session::new_server();
    assert!(s.register(spec(0, ReliabilityMode::Unreliable, 4, 64)).is_ok());
    s.add_link(TransportKind::NativeDatagram);
    assert!(s.broadcast(&b"echo".to_vec(), 0).is_ok());
    let out = s.take_outbound();
    assert_eq!(out.len(), 1);
    // A receiving session with the same registry accepts the frame as-is.
    let mut peer = Session::new_server();
    assert!(peer.register(spec(0, ReliabilityMode::Unreliable, 4, 64)).is_ok());
    peer.handle_incoming(&out[0].bytes);
    assert_eq!(peer.drain(0).unwrap(), vec![b"echo".to_vec()]);
}

#[test]
fn fatal_send_error_removes_link_and_later_broadcasts_succeed() {
    let mut s = Session::new_server();
    assert!(s.register(spec(1, ReliabilityMode::Reliable, 4, 64)).is_ok());
    let first = s.add_link(TransportKind::NativeStream);
    let second = s.add_link(TransportKind::NativeStream);
    assert!(s.broadcast(&b"both".to_vec(), 1).is_ok());
    let out = s.take_outbound();
    assert_eq!(out.len(), 2);
    // The driver failed to transmit on the first link.
    s.report_send_error(first, true);
    assert_eq!(s.link_count(), 1);
    let r = s.broadcast(&b"rest".to_vec(), 1);
    assert!(r.is_ok());
    let out = s.take_outbound();
    let targets: Vec<u64> = out.iter().map(|f| f.link_id).collect();
    assert_eq!(targets, vec![second]);
}

#[test]
fn non_fatal_send_outcome_keeps_the_link() {
    let mut s = Session::new_server();
    assert!(s.register(spec(0, ReliabilityMode::Unreliable, 4, 64)).is_ok());
    let datagram = s.add_link(TransportKind::NativeDatagram);
    s.report_send_error(datagram, false);
    assert_eq!(s.link_count(), 1);
}

#[test]
fn ticks_count_up() {
    let mut s = Session::new_server();
    assert_eq!(s.tick_count(), 0);
    assert_eq!(s.begin_tick(), 1);
    assert_eq!(s.begin_tick(), 2);
    assert_eq!(s.tick_count(), 2);
}
