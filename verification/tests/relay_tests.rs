use tuic_relay::address::{Address, IpAddress};
use tuic_relay::command::{Packet, PacketFragment};
use tuic_relay::relay::{Dispatcher, Error, UdpRelayMode};

fn frag(assoc: u32, id: u16, frag_id: u8, frag_total: u8, payload: &[u8]) -> PacketFragment {
    PacketFragment {
        frag_id,
        frag_total,
        packet: Packet::new(assoc, id, Address::Unspecified, payload.to_vec()),
    }
}

fn frag_to(
    assoc: u32,
    id: u16,
    frag_id: u8,
    frag_total: u8,
    addr: Address,
    payload: &[u8],
) -> PacketFragment {
    PacketFragment { frag_id, frag_total, packet: Packet::new(assoc, id, addr, payload.to_vec()) }
}

#[test]
fn out_of_order_fragments_reassemble() {
    // Association 0x1, packet 0x10, two fragments arriving in reverse order.
    let mut d = Dispatcher::new(UdpRelayMode::Native);
    let r1 = d.on_datagram_packet(frag(0x1, 0x10, 1, 2, b"LLO"));
    assert!(matches!(r1, Ok(None)));
    let r0 = d.on_datagram_packet(frag(0x1, 0x10, 0, 2, b"HE"));
    match r0 {
        Ok(Some(delivery)) => {
            assert_eq!(delivery.associate_id, 0x1);
            assert_eq!(delivery.payload, b"HELLO".to_vec());
        }
        other => panic!("expected a delivery, got {:?}", other.is_ok()),
    }
    // The buffer is gone once delivered.
    assert!(!d.evict_buffer(0x1, 0x10));
}

#[test]
fn duplicate_fragment_delivers_exactly_once() {
    // The duplicate of fragment 0 overwrites its slot; completion still
    // happens exactly once, on the arrival of fragment 1.
    let mut d = Dispatcher::new(UdpRelayMode::Native);
    assert!(matches!(d.on_datagram_packet(frag(0x1, 0x10, 0, 2, b"HE")), Ok(None)));
    assert!(matches!(d.on_datagram_packet(frag(0x1, 0x10, 0, 2, b"HE")), Ok(None)));
    let done = d.on_datagram_packet(frag(0x1, 0x10, 1, 2, b"LLO"));
    match done {
        Ok(Some(delivery)) => assert_eq!(delivery.payload, b"HELLO".to_vec()),
        _ => panic!("expected the completing fragment to deliver"),
    }
    assert!(!d.evict_buffer(0x1, 0x10));
}

#[test]
fn unsplit_packet_delivered_immediately_without_buffering() {
    let mut d = Dispatcher::new(UdpRelayMode::Native);
    let r = d.on_datagram_packet(frag(0x2, 0x7, 0, 1, b"whole datagram"));
    match r {
        Ok(Some(delivery)) => {
            assert_eq!(delivery.associate_id, 0x2);
            assert_eq!(delivery.payload, b"whole datagram".to_vec());
        }
        _ => panic!("expected immediate delivery"),
    }
    // Nothing was buffered for that key.
    assert!(!d.evict_buffer(0x2, 0x7));
}

#[test]
fn wrong_path_is_rejected_without_delivery() {
    // A unidirectional-stream packet under native-datagram mode...
    let mut native = Dispatcher::new(UdpRelayMode::Native);
    let r = native.on_unidirectional_packet(frag(0x1, 0x1, 0, 1, b"x"));
    assert_eq!(r.unwrap_err(), Error::WrongPacketSource);
    assert!(!native.evict_buffer(0x1, 0x1));
    // ...and symmetrically a datagram packet under reliable-stream mode.
    let mut quic = Dispatcher::new(UdpRelayMode::Quic);
    let r = quic.on_datagram_packet(frag(0x1, 0x1, 0, 1, b"x"));
    assert_eq!(r.unwrap_err(), Error::WrongPacketSource);
    assert!(!quic.evict_buffer(0x1, 0x1));
}

#[test]
fn packets_with_different_ids_reassemble_independently() {
    let mut d = Dispatcher::new(UdpRelayMode::Quic);
    assert!(matches!(d.on_unidirectional_packet(frag(0x1, 0x10, 0, 2, b"AB")), Ok(None)));
    assert!(matches!(d.on_unidirectional_packet(frag(0x1, 0x11, 0, 2, b"12")), Ok(None)));
    // Completing packet 0x10 does not disturb packet 0x11's buffer.
    let first = d.on_unidirectional_packet(frag(0x1, 0x10, 1, 2, b"CD"));
    match first {
        Ok(Some(delivery)) => assert_eq!(delivery.payload, b"ABCD".to_vec()),
        _ => panic!("expected first packet to complete"),
    }
    let second = d.on_unidirectional_packet(frag(0x1, 0x11, 1, 2, b"34"));
    match second {
        Ok(Some(delivery)) => assert_eq!(delivery.payload, b"1234".to_vec()),
        _ => panic!("expected second packet to complete"),
    }
}

#[test]
fn delivery_takes_address_of_fragment_zero() {
    let mut d = Dispatcher::new(UdpRelayMode::Native);
    let target = Address::SocketAddress { ip: IpAddress::V4(0x7f000001), port: 53 };
    assert!(matches!(d.on_datagram_packet(frag(0x1, 0x20, 1, 2, b"b")), Ok(None)));
    let r = d.on_datagram_packet(frag_to(0x1, 0x20, 0, 2, target, b"a"));
    match r {
        Ok(Some(delivery)) => {
            assert_eq!(delivery.payload, b"ab".to_vec());
            match delivery.address {
                Address::SocketAddress { ip: IpAddress::V4(ip), port } => {
                    assert_eq!(ip, 0x7f000001);
                    assert_eq!(port, 53);
                }
                _ => panic!("expected the socket address declared by fragment 0"),
            }
        }
        _ => panic!("expected delivery"),
    }
}

#[test]
fn mismatched_fragment_total_is_dropped() {
    let mut d = Dispatcher::new(UdpRelayMode::Native);
    assert!(matches!(d.on_datagram_packet(frag(0x1, 0x30, 0, 3, b"a")), Ok(None)));
    // A fragment declaring a different total for the same key is discarded.
    assert!(matches!(d.on_datagram_packet(frag(0x1, 0x30, 1, 2, b"b")), Ok(None)));
    // The original three-fragment buffer still completes.
    assert!(matches!(d.on_datagram_packet(frag(0x1, 0x30, 1, 3, b"b")), Ok(None)));
    let r = d.on_datagram_packet(frag(0x1, 0x30, 2, 3, b"c"));
    match r {
        Ok(Some(delivery)) => assert_eq!(delivery.payload, b"abc".to_vec()),
        _ => panic!("expected completion with the original total"),
    }
}

#[test]
fn evict_discards_partial_buffer() {
    let mut d = Dispatcher::new(UdpRelayMode::Native);
    assert!(matches!(d.on_datagram_packet(frag(0x1, 0x40, 0, 2, b"he")), Ok(None)));
    assert!(d.evict_buffer(0x1, 0x40));
    // After eviction the remaining fragment opens a fresh buffer instead of
    // completing the old one.
    assert!(matches!(d.on_datagram_packet(frag(0x1, 0x40, 1, 2, b"llo")), Ok(None)));
}

#[test]
fn packet_new_sets_fields() {
    let p = Packet::new(9, 7, Address::Unspecified, b"xyz".to_vec());
    assert_eq!(p.associate_id, 9);
    assert_eq!(p.id, 7);
    assert_eq!(p.data, b"xyz".to_vec());
    assert!(matches!(p.address, Address::Unspecified));
}

#[test]
fn empty_payload_relays() {
    let mut d = Dispatcher::new(UdpRelayMode::Native);
    match d.on_datagram_packet(frag(0x5, 0x1, 0, 1, b"")) {
        Ok(Some(delivery)) => assert_eq!(delivery.payload, Vec::<u8>::new()),
        _ => panic!("expected immediate delivery of the empty payload"),
    }
}

#[test]
fn maximum_fragment_count_reassembles() {
    // 255 fragments, the widest split the wire format can declare, sent in
    // reverse order.
    let mut d = Dispatcher::new(UdpRelayMode::Native);
    for i in (1..255u16).rev() {
        let r = d.on_datagram_packet(frag(0x9, 0x1, i as u8, 255, &[i as u8]));
        assert!(matches!(r, Ok(None)));
    }
    match d.on_datagram_packet(frag(0x9, 0x1, 0, 255, &[0u8])) {
        Ok(Some(delivery)) => {
            let expected: Vec<u8> = (0..255u16).map(|i| i as u8).collect();
            assert_eq!(delivery.payload, expected);
        }
        _ => panic!("expected fragment 0 to complete the packet"),
    }
}
