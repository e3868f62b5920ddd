//! Typed protocol commands produced by decoding a stream or datagram unit.

use vstd::prelude::*;

use crate::address::{AddrModel, Address};

verus! {

/// One relayed UDP datagram, or one fragment of it: the packet id (unique
/// within one association's still-open packets), the association id, the
/// declared target address, and the payload bytes of this wire unit.
#[derive(Clone, Debug)]
pub struct Packet {
    pub id: u16,
    pub associate_id: u32,
    pub address: Address,
    pub data: Vec<u8>,
}

/// Mathematical value of a [`Packet`].
#[verifier::ext_equal]
pub ghost struct PacketModel {
    pub id: u16,
    pub associate_id: u32,
    pub address: AddrModel,
    pub data: Seq<u8>,
}

impl View for Packet {
    type V = PacketModel;

    open spec fn view(&self) -> PacketModel {
        PacketModel {
            id: self.id,
            associate_id: self.associate_id,
            address: self.address@,
            data: self.data@,
        }
    }
}

impl Packet {
    pub fn new(assoc_id: u32, pkt_id: u16, addr: Address, pkt: Vec<u8>) -> (r: Self)
        ensures
            r@ == (PacketModel {
                id: pkt_id,
                associate_id: assoc_id,
                address: addr@,
                data: pkt@,
            }),
    {
        Self { id: pkt_id, associate_id: assoc_id, address: addr, data: pkt }
    }
}

/// A `Packet` command as it arrives on the wire: the packet together with its
/// fragment descriptor (`frag_id` is this fragment's 0-based index among
/// `frag_total` fragments of one original datagram).
#[derive(Clone, Debug)]
pub struct PacketFragment {
    pub frag_id: u8,
    pub frag_total: u8,
    pub packet: Packet,
}

/// Mathematical value of a [`PacketFragment`].
#[verifier::ext_equal]
pub ghost struct FragModel {
    pub frag_id: u8,
    pub frag_total: u8,
    pub packet: PacketModel,
}

impl View for PacketFragment {
    type V = FragModel;

    open spec fn view(&self) -> FragModel {
        FragModel { frag_id: self.frag_id, frag_total: self.frag_total, packet: self.packet@ }
    }
}

/// The fragment descriptor's invariant: a fragment's index lies below its
/// declared total, and a datagram has at least one fragment.
pub open spec fn frag_wf(f: FragModel) -> bool {
    &&& 1 <= f.frag_total
    &&& f.frag_id < f.frag_total
}

/// Commands that the protocol permits on a unidirectional stream.
///
/// The full command set is {Authenticate, Connect, Packet, Dissociate,
/// Heartbeat}; each channel kind decodes only the subset legal on it, so a
/// variant arriving on the wrong channel is a decode error, never a value.
#[derive(Debug)]
pub enum UniCommand {
    Packet(PacketFragment),
    Dissociate { associate_id: u32 },
    Heartbeat,
}

/// Mathematical value of a [`UniCommand`].
#[verifier::ext_equal]
pub ghost enum UniCommandModel {
    Packet(FragModel),
    Dissociate { associate_id: u32 },
    Heartbeat,
}

impl View for UniCommand {
    type V = UniCommandModel;

    open spec fn view(&self) -> UniCommandModel {
        match self {
            UniCommand::Packet(f) => UniCommandModel::Packet(f@),
            UniCommand::Dissociate { associate_id } => UniCommandModel::Dissociate {
                associate_id: *associate_id,
            },
            UniCommand::Heartbeat => UniCommandModel::Heartbeat,
        }
    }
}

/// Commands that the protocol permits on a bidirectional stream. Both belong
/// to session establishment, which sits outside the relay core: they are
/// returned to the caller undecoded beyond their variant and address.
#[derive(Debug)]
pub enum BiCommand {
    Authenticate,
    Connect { address: Address },
}

/// Mathematical value of a [`BiCommand`].
#[verifier::ext_equal]
pub ghost enum BiCommandModel {
    Authenticate,
    Connect { address: AddrModel },
}

impl View for BiCommand {
    type V = BiCommandModel;

    open spec fn view(&self) -> BiCommandModel {
        match self {
            BiCommand::Authenticate => BiCommandModel::Authenticate,
            BiCommand::Connect { address } => BiCommandModel::Connect { address: address@ },
        }
    }
}

} // verus!
