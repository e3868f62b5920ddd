use tuic_relay::codec::DecodeError;
use tuic_relay::connection::Connection;
use tuic_relay::relay::{Error, UdpRelayMode};

fn packet_unit(
    id: u16,
    assoc: u32,
    frag_id: u8,
    frag_total: u8,
    payload: &[u8],
) -> Vec<u8> {
    let mut b = vec![5u8, 2u8];
    b.extend_from_slice(&id.to_be_bytes());
    b.extend_from_slice(&assoc.to_be_bytes());
    b.push(frag_id);
    b.push(frag_total);
    b.push(0u8);
    b.extend_from_slice(&(payload.len() as u16).to_be_bytes());
    b.extend_from_slice(payload);
    b
}

#[test]
fn stream_packets_relay_under_quic_mode() {
    let mut conn = Connection::new(UdpRelayMode::Quic, 4, 2);
    let first = conn.handle_uni_bytes(&packet_unit(0x10, 0x1, 1, 2, b"LLO"));
    assert!(matches!(first, Ok(None)));
    let second = conn.handle_uni_bytes(&packet_unit(0x10, 0x1, 0, 2, b"HE"));
    match second {
        Ok(Some(delivery)) => {
            assert_eq!(delivery.associate_id, 0x1);
            assert_eq!(delivery.payload, b"HELLO".to_vec());
        }
        _ => panic!("expected the completing fragment to deliver"),
    }
}

#[test]
fn stream_packets_rejected_under_native_mode() {
    let mut conn = Connection::new(UdpRelayMode::Native, 4, 2);
    let r = conn.handle_uni_bytes(&packet_unit(0x10, 0x1, 0, 1, b"X"));
    assert_eq!(r.unwrap_err(), Error::WrongPacketSource);
}

#[test]
fn datagram_packets_relay_under_native_mode() {
    let mut conn = Connection::new(UdpRelayMode::Native, 4, 2);
    let r = conn.handle_datagram_bytes(&packet_unit(0x3, 0x2, 0, 1, b"one shot"));
    match r {
        Ok(Some(delivery)) => {
            assert_eq!(delivery.associate_id, 0x2);
            assert_eq!(delivery.payload, b"one shot".to_vec());
        }
        _ => panic!("expected immediate delivery"),
    }
}

#[test]
fn datagram_packets_rejected_under_quic_mode() {
    let mut conn = Connection::new(UdpRelayMode::Quic, 4, 2);
    let r = conn.handle_datagram_bytes(&packet_unit(0x3, 0x2, 0, 1, b"one shot"));
    assert_eq!(r.unwrap_err(), Error::WrongPacketSource);
}

#[test]
fn dissociate_discards_partial_buffers() {
    let mut conn = Connection::new(UdpRelayMode::Quic, 4, 2);
    assert!(matches!(conn.handle_uni_bytes(&packet_unit(0x10, 0x1, 0, 2, b"HE")), Ok(None)));
    // Dissociate association 0x1: its half-filled buffer is dropped.
    let dissociate = vec![5u8, 3, 0, 0, 0, 1];
    assert!(matches!(conn.handle_uni_bytes(&dissociate), Ok(None)));
    // The second fragment now opens a fresh buffer instead of completing.
    assert!(matches!(conn.handle_uni_bytes(&packet_unit(0x10, 0x1, 1, 2, b"LLO")), Ok(None)));
    // Both fragments again: now it completes.
    assert!(matches!(conn.handle_uni_bytes(&packet_unit(0x10, 0x1, 1, 2, b"LLO")), Ok(None)));
    match conn.handle_uni_bytes(&packet_unit(0x10, 0x1, 0, 2, b"HE")) {
        Ok(Some(delivery)) => assert_eq!(delivery.payload, b"HELLO".to_vec()),
        _ => panic!("expected completion after re-sending both fragments"),
    }
}

#[test]
fn heartbeat_changes_nothing() {
    let mut conn = Connection::new(UdpRelayMode::Quic, 4, 2);
    assert!(matches!(conn.handle_uni_bytes(&packet_unit(0x10, 0x1, 0, 2, b"HE")), Ok(None)));
    assert!(matches!(conn.handle_uni_bytes(&vec![5u8, 4]), Ok(None)));
    match conn.handle_uni_bytes(&packet_unit(0x10, 0x1, 1, 2, b"LLO")) {
        Ok(Some(delivery)) => assert_eq!(delivery.payload, b"HELLO".to_vec()),
        _ => panic!("expected completion"),
    }
}

#[test]
fn decode_errors_are_per_unit() {
    let mut conn = Connection::new(UdpRelayMode::Quic, 4, 2);
    assert_eq!(
        conn.handle_uni_bytes(&vec![9u8, 2]).unwrap_err(),
        Error::Decode(DecodeError::BadVersion)
    );
    // A bad unit leaves the relay able to carry on.
    assert!(matches!(conn.handle_uni_bytes(&packet_unit(0x10, 0x1, 0, 2, b"HE")), Ok(None)));
    match conn.handle_uni_bytes(&packet_unit(0x10, 0x1, 1, 2, b"LLO")) {
        Ok(Some(delivery)) => assert_eq!(delivery.payload, b"HELLO".to_vec()),
        _ => panic!("expected completion"),
    }
}

#[test]
fn bidirectional_units_return_session_commands() {
    let conn = Connection::new(UdpRelayMode::Quic, 4, 2);
    let authenticate = vec![5u8, 0];
    assert!(matches!(
        conn.handle_bi_bytes(&authenticate),
        Ok(tuic_relay::command::BiCommand::Authenticate)
    ));
    // A Packet on a bidirectional stream is a protocol violation, reported
    // as a decode error rather than relayed.
    let r = conn.handle_bi_bytes(&packet_unit(0x1, 0x1, 0, 1, b"x"));
    assert_eq!(r.unwrap_err(), Error::Decode(DecodeError::WrongChannel));
}

#[test]
fn connection_ceilings_double_on_exhaustion() {
    let mut conn = Connection::new(UdpRelayMode::Quic, 4, 2);
    for _ in 0..4 {
        assert_eq!(conn.begin_accept_uni(), None);
        conn.register_uni();
    }
    assert_eq!(conn.begin_accept_uni(), Some(8));
    conn.register_uni();
    assert_eq!(conn.uni_streams.live, 5);
    assert_eq!(conn.uni_streams.ceiling, 8);
    // The bidirectional class is counted separately.
    assert_eq!(conn.bi_streams.ceiling, 2);
    conn.register_bi();
    conn.register_bi();
    assert_eq!(conn.begin_accept_bi(), Some(4));
    conn.release_uni();
    assert_eq!(conn.uni_streams.ceiling, 8);
}
