use tuic_relay::address::{Address, IpAddress};
use tuic_relay::codec::{
    decode_bidirectional, decode_datagram, decode_unidirectional, DecodeError,
};
use tuic_relay::command::{BiCommand, UniCommand};

fn packet_unit(
    id: u16,
    assoc: u32,
    frag_id: u8,
    frag_total: u8,
    addr: &[u8],
    payload: &[u8],
) -> Vec<u8> {
    let mut b = vec![5u8, 2u8];
    b.extend_from_slice(&id.to_be_bytes());
    b.extend_from_slice(&assoc.to_be_bytes());
    b.push(frag_id);
    b.push(frag_total);
    b.extend_from_slice(addr);
    b.extend_from_slice(&(payload.len() as u16).to_be_bytes());
    b.extend_from_slice(payload);
    b
}

#[test]
fn decodes_packet_with_domain_address() {
    let addr = [1u8, 3, b'a', b'b', b'c', 0x12, 0x34];
    let unit = packet_unit(0x10, 0x1, 0, 2, &addr, b"HE");
    match decode_unidirectional(&unit) {
        Ok(UniCommand::Packet(f)) => {
            assert_eq!(f.frag_id, 0);
            assert_eq!(f.frag_total, 2);
            assert_eq!(f.packet.id, 0x10);
            assert_eq!(f.packet.associate_id, 0x1);
            assert_eq!(f.packet.data, b"HE".to_vec());
            match &f.packet.address {
                Address::DomainPort { host, port } => {
                    assert_eq!(host, &b"abc".to_vec());
                    assert_eq!(*port, 0x1234);
                }
                _ => panic!("expected a domain address"),
            }
        }
        _ => panic!("expected a packet command"),
    }
}

#[test]
fn decodes_packet_with_socket_addresses() {
    let v4 = [2u8, 127, 0, 0, 1, 0, 53];
    let unit = packet_unit(1, 2, 0, 1, &v4, b"p");
    match decode_datagram(&unit) {
        Ok(f) => match f.packet.address {
            Address::SocketAddress { ip: IpAddress::V4(ip), port } => {
                assert_eq!(ip, 0x7f000001);
                assert_eq!(port, 53);
            }
            _ => panic!("expected an IPv4 socket address"),
        },
        _ => panic!("expected a packet"),
    }
    let mut v6 = vec![3u8];
    v6.extend_from_slice(&[0u8; 15]);
    v6.push(1);
    v6.extend_from_slice(&[0x1f, 0x90]);
    let unit = packet_unit(1, 2, 0, 1, &v6, b"p");
    match decode_datagram(&unit) {
        Ok(f) => match f.packet.address {
            Address::SocketAddress { ip: IpAddress::V6(ip), port } => {
                assert_eq!(ip, 1u128);
                assert_eq!(port, 8080);
            }
            _ => panic!("expected an IPv6 socket address"),
        },
        _ => panic!("expected a packet"),
    }
}

#[test]
fn decodes_dissociate_and_heartbeat() {
    let dissociate = vec![5u8, 3, 0, 0, 0, 7];
    assert!(matches!(
        decode_unidirectional(&dissociate),
        Ok(UniCommand::Dissociate { associate_id: 7 })
    ));
    let heartbeat = vec![5u8, 4];
    assert!(matches!(decode_unidirectional(&heartbeat), Ok(UniCommand::Heartbeat)));
}

#[test]
fn decodes_bidirectional_commands() {
    let authenticate = vec![5u8, 0];
    assert!(matches!(decode_bidirectional(&authenticate), Ok(BiCommand::Authenticate)));
    let connect = vec![5u8, 1, 2, 10, 0, 0, 1, 0x01, 0xbb];
    match decode_bidirectional(&connect) {
        Ok(BiCommand::Connect { address: Address::SocketAddress { ip: IpAddress::V4(ip), port } }) => {
            assert_eq!(ip, 0x0a000001);
            assert_eq!(port, 443);
        }
        _ => panic!("expected a connect command"),
    }
}

#[test]
fn rejects_wrong_channel() {
    // Authenticate and Connect are bidirectional-only.
    assert_eq!(decode_unidirectional(&vec![5u8, 0]).unwrap_err(), DecodeError::WrongChannel);
    assert_eq!(decode_unidirectional(&vec![5u8, 1]).unwrap_err(), DecodeError::WrongChannel);
    // Packet, Dissociate and Heartbeat never arrive on bidirectional streams.
    assert_eq!(decode_bidirectional(&vec![5u8, 2]).unwrap_err(), DecodeError::WrongChannel);
    assert_eq!(decode_bidirectional(&vec![5u8, 3]).unwrap_err(), DecodeError::WrongChannel);
    assert_eq!(decode_bidirectional(&vec![5u8, 4]).unwrap_err(), DecodeError::WrongChannel);
    // Datagrams carry Packet only.
    assert_eq!(decode_datagram(&vec![5u8, 0]).unwrap_err(), DecodeError::WrongChannel);
    assert_eq!(decode_datagram(&vec![5u8, 1]).unwrap_err(), DecodeError::WrongChannel);
    assert_eq!(decode_datagram(&vec![5u8, 3]).unwrap_err(), DecodeError::WrongChannel);
    assert_eq!(decode_datagram(&vec![5u8, 4]).unwrap_err(), DecodeError::WrongChannel);
}

#[test]
fn rejects_bad_version_and_bad_command() {
    assert_eq!(decode_unidirectional(&vec![4u8, 4]).unwrap_err(), DecodeError::BadVersion);
    assert_eq!(decode_datagram(&vec![0u8, 2]).unwrap_err(), DecodeError::BadVersion);
    assert_eq!(decode_unidirectional(&vec![5u8, 9]).unwrap_err(), DecodeError::BadCommand);
    assert_eq!(decode_bidirectional(&vec![5u8, 255]).unwrap_err(), DecodeError::BadCommand);
}

#[test]
fn rejects_truncated_units() {
    assert_eq!(decode_unidirectional(&vec![]).unwrap_err(), DecodeError::Truncated);
    assert_eq!(decode_unidirectional(&vec![5u8]).unwrap_err(), DecodeError::Truncated);
    assert_eq!(decode_unidirectional(&vec![5u8, 3, 0, 0]).unwrap_err(), DecodeError::Truncated);
    // A packet whose payload body stops short of its declared length.
    let mut unit = packet_unit(1, 1, 0, 1, &[0u8], b"abc");
    unit.pop();
    assert_eq!(decode_unidirectional(&unit).unwrap_err(), DecodeError::Truncated);
}

#[test]
fn rejects_trailing_bytes() {
    assert_eq!(decode_unidirectional(&vec![5u8, 4, 0]).unwrap_err(), DecodeError::TrailingBytes);
    assert_eq!(
        decode_unidirectional(&vec![5u8, 3, 0, 0, 0, 7, 9]).unwrap_err(),
        DecodeError::TrailingBytes
    );
    assert_eq!(decode_bidirectional(&vec![5u8, 0, 0]).unwrap_err(), DecodeError::TrailingBytes);
    let mut unit = packet_unit(1, 1, 0, 1, &[0u8], b"abc");
    unit.push(0);
    assert_eq!(decode_datagram(&unit).unwrap_err(), DecodeError::TrailingBytes);
}

#[test]
fn rejects_bad_fragment_descriptor() {
    // frag_total of zero.
    let unit = packet_unit(1, 1, 0, 0, &[0u8], b"");
    assert_eq!(decode_unidirectional(&unit).unwrap_err(), DecodeError::BadFragment);
    // frag_id not below frag_total.
    let unit = packet_unit(1, 1, 2, 2, &[0u8], b"");
    assert_eq!(decode_datagram(&unit).unwrap_err(), DecodeError::BadFragment);
}

#[test]
fn rejects_bad_address_type() {
    let unit = packet_unit(1, 1, 0, 1, &[9u8], b"");
    assert_eq!(decode_unidirectional(&unit).unwrap_err(), DecodeError::BadAddressType);
}
