//! Wire-format decoding of protocol command units.
//!
//! Every decodable unit begins with a protocol-version byte and a command-tag
//! byte, followed by the command's payload. The functions here state the
//! grammar as spec-level parsers over byte sequences and prove the executable
//! decoders equal to them; which command variants are legal on which channel
//! (unidirectional stream, bidirectional stream, datagram) is part of the
//! grammar itself, so an illegal variant is a decode error, never a value.

use vstd::prelude::*;

use crate::address::{AddrModel, Address, IpAddress};
use crate::command::{
    frag_wf, BiCommand, BiCommandModel, FragModel, Packet, PacketFragment, PacketModel,
    UniCommand, UniCommandModel,
};

verus! {

broadcast use vstd::std_specs::vec::axiom_spec_len;

/// Version byte that opens every unit of this protocol revision.
pub const PROTOCOL_VERSION: u8 = 5;

/// Command tag: session authentication (bidirectional streams only).
pub const CMD_AUTHENTICATE: u8 = 0;

/// Command tag: TCP relay establishment (bidirectional streams only).
pub const CMD_CONNECT: u8 = 1;

/// Command tag: one UDP datagram or fragment (unidirectional streams and
/// datagrams).
pub const CMD_PACKET: u8 = 2;

/// Command tag: UDP association teardown (unidirectional streams only).
pub const CMD_DISSOCIATE: u8 = 3;

/// Command tag: keep-alive (unidirectional streams only).
pub const CMD_HEARTBEAT: u8 = 4;

/// Address tag: no target named.
pub const ADDR_NONE: u8 = 0;

/// Address tag: domain name and port.
pub const ADDR_DOMAIN: u8 = 1;

/// Address tag: IPv4 socket address.
pub const ADDR_V4: u8 = 2;

/// Address tag: IPv6 socket address.
pub const ADDR_V6: u8 = 3;

/// Why a unit failed to decode, each variant tied to exactly the inputs that
/// produce it by the spec parsers below.
#[derive(Clone, Copy, PartialEq, Eq, Structural, Debug)]
pub enum DecodeError {
    /// The unit ended before the grammar was satisfied.
    Truncated,
    /// The version byte is not this protocol revision's.
    BadVersion,
    /// The command tag names no command of the protocol.
    BadCommand,
    /// The command tag names a command that is not legal on this channel.
    WrongChannel,
    /// The address tag names no address variant.
    BadAddressType,
    /// The fragment descriptor violates `0 <= frag_id < frag_total`.
    BadFragment,
    /// Bytes remain after a complete command.
    TrailingBytes,
}

/// Big-endian value of the `n` bytes of `b` starting at `i`.
pub open spec fn be_bytes(b: Seq<u8>, i: int, n: nat) -> int
    decreases n,
{
    if n == 0 {
        0
    } else {
        be_bytes(b, i, (n - 1) as nat) * 256 + b[i + n - 1]
    }
}

/// Spec parser for an address starting at `i`: the address value and the
/// index just past it, or the decode error.
pub open spec fn parse_address(b: Seq<u8>, i: int) -> Result<(AddrModel, int), DecodeError> {
    if i + 1 > b.len() {
        Err(DecodeError::Truncated)
    } else if b[i] == ADDR_NONE {
        Ok((AddrModel::Unspecified, i + 1))
    } else if b[i] == ADDR_DOMAIN {
        if i + 2 > b.len() {
            Err(DecodeError::Truncated)
        } else {
            let n = b[i + 1] as int;
            if i + 4 + n > b.len() {
                Err(DecodeError::Truncated)
            } else {
                Ok(
                    (
                        AddrModel::DomainPort {
                            host: b.subrange(i + 2, i + 2 + n),
                            port: be_bytes(b, i + 2 + n, 2) as u16,
                        },
                        i + 4 + n,
                    ),
                )
            }
        }
    } else if b[i] == ADDR_V4 {
        if i + 7 > b.len() {
            Err(DecodeError::Truncated)
        } else {
            Ok(
                (
                    AddrModel::SocketAddress {
                        ip: IpAddress::V4(be_bytes(b, i + 1, 4) as u32),
                        port: be_bytes(b, i + 5, 2) as u16,
                    },
                    i + 7,
                ),
            )
        }
    } else if b[i] == ADDR_V6 {
        if i + 19 > b.len() {
            Err(DecodeError::Truncated)
        } else {
            Ok(
                (
                    AddrModel::SocketAddress {
                        ip: IpAddress::V6(be_bytes(b, i + 1, 16) as u128),
                        port: be_bytes(b, i + 17, 2) as u16,
                    },
                    i + 19,
                ),
            )
        }
    } else {
        Err(DecodeError::BadAddressType)
    }
}

/// Spec parser for a `Packet` command's payload starting at `i`: packet id,
/// association id, fragment descriptor, address, then a length-prefixed
/// payload body that must end the unit.
pub open spec fn parse_packet_body(b: Seq<u8>, i: int) -> Result<FragModel, DecodeError> {
    if i + 8 > b.len() {
        Err(DecodeError::Truncated)
    } else {
        let pkt_id = be_bytes(b, i, 2) as u16;
        let assoc_id = be_bytes(b, i + 2, 4) as u32;
        let frag_id = b[i + 6];
        let frag_total = b[i + 7];
        if frag_total == 0 || frag_id >= frag_total {
            Err(DecodeError::BadFragment)
        } else {
            match parse_address(b, i + 8) {
                Err(e) => Err(e),
                Ok((addr, j)) => {
                    if j + 2 > b.len() {
                        Err(DecodeError::Truncated)
                    } else {
                        let n = be_bytes(b, j, 2);
                        if j + 2 + n > b.len() {
                            Err(DecodeError::Truncated)
                        } else if j + 2 + n < b.len() {
                            Err(DecodeError::TrailingBytes)
                        } else {
                            Ok(
                                FragModel {
                                    frag_id,
                                    frag_total,
                                    packet: PacketModel {
                                        id: pkt_id,
                                        associate_id: assoc_id,
                                        address: addr,
                                        data: b.subrange(j + 2, j + 2 + n),
                                    },
                                },
                            )
                        }
                    }
                },
            }
        }
    }
}

/// Spec parser for a unit arriving on a unidirectional stream. Legal
/// variants: Packet, Dissociate, Heartbeat.
pub open spec fn parse_uni(b: Seq<u8>) -> Result<UniCommandModel, DecodeError> {
    if b.len() < 2 {
        Err(DecodeError::Truncated)
    } else if b[0] != PROTOCOL_VERSION {
        Err(DecodeError::BadVersion)
    } else if b[1] == CMD_PACKET {
        match parse_packet_body(b, 2) {
            Ok(f) => Ok(UniCommandModel::Packet(f)),
            Err(e) => Err(e),
        }
    } else if b[1] == CMD_DISSOCIATE {
        if b.len() < 6 {
            Err(DecodeError::Truncated)
        } else if b.len() > 6 {
            Err(DecodeError::TrailingBytes)
        } else {
            Ok(UniCommandModel::Dissociate { associate_id: be_bytes(b, 2, 4) as u32 })
        }
    } else if b[1] == CMD_HEARTBEAT {
        if b.len() > 2 {
            Err(DecodeError::TrailingBytes)
        } else {
            Ok(UniCommandModel::Heartbeat)
        }
    } else if b[1] == CMD_AUTHENTICATE || b[1] == CMD_CONNECT {
        Err(DecodeError::WrongChannel)
    } else {
        Err(DecodeError::BadCommand)
    }
}

/// Spec parser for a unit arriving on a bidirectional stream. Legal
/// variants: Authenticate, Connect.
pub open spec fn parse_bi(b: Seq<u8>) -> Result<BiCommandModel, DecodeError> {
    if b.len() < 2 {
        Err(DecodeError::Truncated)
    } else if b[0] != PROTOCOL_VERSION {
        Err(DecodeError::BadVersion)
    } else if b[1] == CMD_AUTHENTICATE {
        if b.len() > 2 {
            Err(DecodeError::TrailingBytes)
        } else {
            Ok(BiCommandModel::Authenticate)
        }
    } else if b[1] == CMD_CONNECT {
        match parse_address(b, 2) {
            Err(e) => Err(e),
            Ok((addr, j)) => {
                if j < b.len() {
                    Err(DecodeError::TrailingBytes)
                } else {
                    Ok(BiCommandModel::Connect { address: addr })
                }
            },
        }
    } else if b[1] == CMD_PACKET || b[1] == CMD_DISSOCIATE || b[1] == CMD_HEARTBEAT {
        Err(DecodeError::WrongChannel)
    } else {
        Err(DecodeError::BadCommand)
    }
}

/// Spec parser for a datagram unit. The only legal variant is Packet.
pub open spec fn parse_datagram(b: Seq<u8>) -> Result<FragModel, DecodeError> {
    if b.len() < 2 {
        Err(DecodeError::Truncated)
    } else if b[0] != PROTOCOL_VERSION {
        Err(DecodeError::BadVersion)
    } else if b[1] == CMD_PACKET {
        parse_packet_body(b, 2)
    } else if b[1] == CMD_AUTHENTICATE || b[1] == CMD_CONNECT || b[1] == CMD_DISSOCIATE || b[1]
        == CMD_HEARTBEAT {
        Err(DecodeError::WrongChannel)
    } else {
        Err(DecodeError::BadCommand)
    }
}

/// The executable address decoder agrees with [`parse_address`].
pub open spec fn addr_result_models(
    r: Result<(Address, usize), DecodeError>,
    s: Result<(AddrModel, int), DecodeError>,
) -> bool {
    match (r, s) {
        (Ok((a, j)), Ok((am, sj))) => a@ == am && j == sj,
        (Err(e), Err(se)) => e == se,
        _ => false,
    }
}

/// The executable unidirectional decoder agrees with [`parse_uni`].
pub open spec fn uni_result_models(
    r: Result<UniCommand, DecodeError>,
    s: Result<UniCommandModel, DecodeError>,
) -> bool {
    match (r, s) {
        (Ok(c), Ok(sc)) => c@ == sc,
        (Err(e), Err(se)) => e == se,
        _ => false,
    }
}

/// The executable bidirectional decoder agrees with [`parse_bi`].
pub open spec fn bi_result_models(
    r: Result<BiCommand, DecodeError>,
    s: Result<BiCommandModel, DecodeError>,
) -> bool {
    match (r, s) {
        (Ok(c), Ok(sc)) => c@ == sc,
        (Err(e), Err(se)) => e == se,
        _ => false,
    }
}

/// The executable datagram decoder agrees with [`parse_datagram`].
pub open spec fn frag_result_models(
    r: Result<PacketFragment, DecodeError>,
    s: Result<FragModel, DecodeError>,
) -> bool {
    match (r, s) {
        (Ok(f), Ok(sf)) => f@ == sf,
        (Err(e), Err(se)) => e == se,
        _ => false,
    }
}

fn read_u16_be(b: &Vec<u8>, i: usize) -> (r: u16)
    requires
        i + 2 <= b@.len(),
    ensures
        r == be_bytes(b@, i as int, 2),
{
    proof {
        vstd::std_specs::vec::axiom_spec_len(b);
    }
    let r: u16 = (b[i] as u16) * 256 + (b[i + 1] as u16);
    proof {
        reveal_with_fuel(be_bytes, 3);
    }
    r
}

fn read_u32_be(b: &Vec<u8>, i: usize) -> (r: u32)
    requires
        i + 4 <= b@.len(),
    ensures
        r == be_bytes(b@, i as int, 4),
{
    proof {
        vstd::std_specs::vec::axiom_spec_len(b);
    }
    let mut r: u32 = b[i] as u32;
    r = r * 256 + (b[i + 1] as u32);
    r = r * 256 + (b[i + 2] as u32);
    r = r * 256 + (b[i + 3] as u32);
    proof {
        reveal_with_fuel(be_bytes, 5);
    }
    r
}

fn read_u128_be(b: &Vec<u8>, i: usize) -> (r: u128)
    requires
        i + 16 <= b@.len(),
    ensures
        r == be_bytes(b@, i as int, 16),
{
    proof {
        vstd::std_specs::vec::axiom_spec_len(b);
    }
    let mut r: u128 = 0;
    let mut k: usize = 0;
    while k < 16
        invariant
            k <= 16,
            i + 16 <= b@.len(),
            b@.len() <= usize::MAX,
            r == be_bytes(b@, i as int, k as nat),
            r < pow256(k as nat),
        decreases 16 - k,
    {
        proof {
            lemma_pow256_mono((k + 1) as nat, 16);
            assert(pow256((k + 1) as nat) == pow256(k as nat) * 256);
            assert(r * 256 + b@[i + k] < pow256((k + 1) as nat)) by (nonlinear_arith)
                requires
                    r < pow256(k as nat),
                    b@[i + k] < 256,
                    pow256((k + 1) as nat) == pow256(k as nat) * 256,
            ;
        }
        r = r * 256 + (b[i + k] as u128);
        k = k + 1;
    }
    r
}

/// `256^n`, the bound of an `n`-byte big-endian value.
spec fn pow256(n: nat) -> int
    decreases n,
{
    if n == 0 {
        1
    } else {
        pow256((n - 1) as nat) * 256
    }
}

proof fn lemma_pow256_mono(k: nat, n: nat)
    requires
        k <= n,
    ensures
        pow256(k) <= pow256(n),
        pow256(16) == 0x100000000000000000000000000000000,
    decreases n,
{
    assert(pow256(16) == 0x100000000000000000000000000000000) by {
        reveal_with_fuel(pow256, 17);
    }
    if k < n {
        lemma_pow256_mono(k, (n - 1) as nat);
        lemma_pow256_pos((n - 1) as nat);
        assert(pow256((n - 1) as nat) * 256 >= pow256((n - 1) as nat)) by (nonlinear_arith)
            requires
                pow256((n - 1) as nat) >= 1,
        ;
    }
}

proof fn lemma_pow256_pos(n: nat)
    ensures
        pow256(n) >= 1,
    decreases n,
{
    if n > 0 {
        lemma_pow256_pos((n - 1) as nat);
        assert(pow256((n - 1) as nat) * 256 >= 1) by (nonlinear_arith)
            requires
                pow256((n - 1) as nat) >= 1,
        ;
    }
}

/// Decodes an address starting at `i`; consumes exactly the bytes the
/// grammar gives it and reports the index just past them.
fn decode_address(b: &Vec<u8>, i: usize) -> (r: Result<(Address, usize), DecodeError>)
    requires
        i <= b@.len(),
    ensures
        addr_result_models(r, parse_address(b@, i as int)),
{
    proof {
        vstd::std_specs::vec::axiom_spec_len(b);
    }
    let rem = b.len() - i;
    if rem < 1 {
        return Err(DecodeError::Truncated);
    }
    let tag = b[i];
    if tag == ADDR_NONE {
        Ok((Address::Unspecified, i + 1))
    } else if tag == ADDR_DOMAIN {
        if rem < 2 {
            return Err(DecodeError::Truncated);
        }
        let n = b[i + 1] as usize;
        if rem < 4 + n {
            return Err(DecodeError::Truncated);
        }
        let mut host: Vec<u8> = Vec::new();
        let mut k: usize = 0;
        while k < n
            invariant
                k <= n,
                i + 4 + n <= b@.len(),
                b@.len() <= usize::MAX,
                host@ =~= b@.subrange(i + 2, i + 2 + k),
            decreases n - k,
        {
            host.push(b[i + 2 + k]);
            proof {
                assert(host@ =~= b@.subrange(i as int + 2, i + 2 + k + 1 as int));
            }
            k = k + 1;
        }
        let port = read_u16_be(b, i + 2 + n);
        Ok((Address::DomainPort { host, port }, i + 4 + n))
    } else if tag == ADDR_V4 {
        if rem < 7 {
            return Err(DecodeError::Truncated);
        }
        let ip = read_u32_be(b, i + 1);
        let port = read_u16_be(b, i + 5);
        Ok((Address::SocketAddress { ip: IpAddress::V4(ip), port }, i + 7))
    } else if tag == ADDR_V6 {
        if rem < 19 {
            return Err(DecodeError::Truncated);
        }
        let ip = read_u128_be(b, i + 1);
        let port = read_u16_be(b, i + 17);
        Ok((Address::SocketAddress { ip: IpAddress::V6(ip), port }, i + 19))
    } else {
        Err(DecodeError::BadAddressType)
    }
}

/// Decodes a `Packet` command's payload starting at `i`, which must end the
/// unit.
fn decode_packet_body(b: &Vec<u8>, i: usize) -> (r: Result<PacketFragment, DecodeError>)
    requires
        i <= b@.len(),
    ensures
        frag_result_models(r, parse_packet_body(b@, i as int)),
{
    proof {
        vstd::std_specs::vec::axiom_spec_len(b);
    }
    let rem = b.len() - i;
    if rem < 8 {
        return Err(DecodeError::Truncated);
    }
    let pkt_id = read_u16_be(b, i);
    let assoc_id = read_u32_be(b, i + 2);
    let frag_id = b[i + 6];
    let frag_total = b[i + 7];
    if frag_total == 0 || frag_id >= frag_total {
        return Err(DecodeError::BadFragment);
    }
    let (address, j) = match decode_address(b, i + 8) {
        Err(e) => {
            return Err(e);
        },
        Ok(p) => p,
    };
    if b.len() - j < 2 {
        return Err(DecodeError::Truncated);
    }
    let n = read_u16_be(b, j) as usize;
    if b.len() - j - 2 < n {
        return Err(DecodeError::Truncated);
    }
    if b.len() - j - 2 > n {
        return Err(DecodeError::TrailingBytes);
    }
    let mut data: Vec<u8> = Vec::new();
    let mut k: usize = 0;
    while k < n
        invariant
            k <= n,
            j + 2 + n <= b@.len(),
            b@.len() <= usize::MAX,
            data@ =~= b@.subrange(j + 2, j + 2 + k),
        decreases n - k,
    {
        data.push(b[j + 2 + k]);
        proof {
            assert(data@ =~= b@.subrange(j as int + 2, j + 2 + k + 1 as int));
        }
        k = k + 1;
    }
    Ok(
        PacketFragment {
            frag_id,
            frag_total,
            packet: Packet { id: pkt_id, associate_id: assoc_id, address, data },
        },
    )
}

/// Decodes a unit read whole from a unidirectional stream.
pub fn decode_unidirectional(b: &Vec<u8>) -> (r: Result<UniCommand, DecodeError>)
    ensures
        uni_result_models(r, parse_uni(b@)),
        match r {
            Ok(c) => match c@ {
                UniCommandModel::Packet(f) => frag_wf(f),
                _ => true,
            },
            Err(_) => true,
        },
{
    if b.len() < 2 {
        return Err(DecodeError::Truncated);
    }
    if b[0] != PROTOCOL_VERSION {
        return Err(DecodeError::BadVersion);
    }
    let tag = b[1];
    if tag == CMD_PACKET {
        match decode_packet_body(b, 2) {
            Ok(f) => Ok(UniCommand::Packet(f)),
            Err(e) => Err(e),
        }
    } else if tag == CMD_DISSOCIATE {
        if b.len() < 6 {
            Err(DecodeError::Truncated)
        } else if b.len() > 6 {
            Err(DecodeError::TrailingBytes)
        } else {
            Ok(UniCommand::Dissociate { associate_id: read_u32_be(b, 2) })
        }
    } else if tag == CMD_HEARTBEAT {
        if b.len() > 2 {
            Err(DecodeError::TrailingBytes)
        } else {
            Ok(UniCommand::Heartbeat)
        }
    } else if tag == CMD_AUTHENTICATE || tag == CMD_CONNECT {
        Err(DecodeError::WrongChannel)
    } else {
        Err(DecodeError::BadCommand)
    }
}

/// Decodes a unit read whole from a bidirectional stream.
pub fn decode_bidirectional(b: &Vec<u8>) -> (r: Result<BiCommand, DecodeError>)
    ensures
        bi_result_models(r, parse_bi(b@)),
{
    if b.len() < 2 {
        return Err(DecodeError::Truncated);
    }
    if b[0] != PROTOCOL_VERSION {
        return Err(DecodeError::BadVersion);
    }
    let tag = b[1];
    if tag == CMD_AUTHENTICATE {
        if b.len() > 2 {
            Err(DecodeError::TrailingBytes)
        } else {
            Ok(BiCommand::Authenticate)
        }
    } else if tag == CMD_CONNECT {
        match decode_address(b, 2) {
            Err(e) => Err(e),
            Ok((address, j)) => {
                if j < b.len() {
                    Err(DecodeError::TrailingBytes)
                } else {
                    Ok(BiCommand::Connect { address })
                }
            },
        }
    } else if tag == CMD_PACKET || tag == CMD_DISSOCIATE || tag == CMD_HEARTBEAT {
        Err(DecodeError::WrongChannel)
    } else {
        Err(DecodeError::BadCommand)
    }
}

/// Decodes one transport datagram.
pub fn decode_datagram(b: &Vec<u8>) -> (r: Result<PacketFragment, DecodeError>)
    ensures
        frag_result_models(r, parse_datagram(b@)),
        r matches Ok(f) ==> frag_wf(f@),
{
    if b.len() < 2 {
        return Err(DecodeError::Truncated);
    }
    if b[0] != PROTOCOL_VERSION {
        return Err(DecodeError::BadVersion);
    }
    let tag = b[1];
    if tag == CMD_PACKET {
        decode_packet_body(b, 2)
    } else if tag == CMD_AUTHENTICATE || tag == CMD_CONNECT || tag == CMD_DISSOCIATE || tag
        == CMD_HEARTBEAT {
        Err(DecodeError::WrongChannel)
    } else {
        Err(DecodeError::BadCommand)
    }
}

} // verus!
