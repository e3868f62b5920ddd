//! The relay dispatcher: dual-path UDP packet relay with fragment
//! reassembly.
//!
//! A decoded `Packet` command is accepted only from the channel that the
//! configured relay mode allows (unidirectional streams under reliable-stream
//! mode, transport datagrams under native-datagram mode); the other channel
//! yields a per-unit "wrong packet source" error. Accepted fragments are
//! keyed by `(associate_id, id)` and buffered until all `frag_total` slots
//! are present, then concatenated in `frag_id` order into one delivery.
//! Duplicate fragments overwrite their slot (last write wins); an unsplit
//! packet (`frag_total == 1`) is delivered immediately without touching the
//! table.

use vstd::prelude::*;

use crate::address::{AddrModel, Address};
use crate::command::{frag_wf, FragModel, PacketFragment};

verus! {

broadcast use vstd::std_specs::vec::axiom_spec_len;

/// Which transport path carries relayed UDP payloads for this connection.
/// Fixed at connection construction, immutable afterwards.
#[derive(Clone, Copy, PartialEq, Eq, Structural, Debug)]
pub enum UdpRelayMode {
    /// Payloads travel in the transport's unreliable datagrams.
    Native,
    /// Payloads travel over reliable unidirectional streams.
    Quic,
}

/// Per-unit failure of the relay path.
#[derive(Clone, Copy, PartialEq, Eq, Structural, Debug)]
pub enum Error {
    /// The unit did not decode as a command legal on its channel.
    Decode(crate::codec::DecodeError),
    /// A well-formed `Packet` arrived on the channel that the configured
    /// relay mode forbids.
    WrongPacketSource,
}

/// A fully reassembled UDP datagram, ready for the local UDP-facing
/// collaborator to transmit.
#[derive(Debug)]
pub struct Delivery {
    pub associate_id: u32,
    pub address: Address,
    pub payload: Vec<u8>,
}

/// Mathematical value of a [`Delivery`].
#[verifier::ext_equal]
pub ghost struct DeliveryModel {
    pub associate_id: u32,
    pub address: AddrModel,
    pub payload: Seq<u8>,
}

impl View for Delivery {
    type V = DeliveryModel;

    open spec fn view(&self) -> DeliveryModel {
        DeliveryModel {
            associate_id: self.associate_id,
            address: self.address@,
            payload: self.payload@,
        }
    }
}

/// One in-flight reassembly: the fragments of packet `packet_id` within
/// association `associate_id` received so far, slot `k` holding fragment
/// `k`'s payload. The address is the one declared by the latest fragment
/// with index 0.
pub struct ReassemblyBuffer {
    pub associate_id: u32,
    pub packet_id: u16,
    pub frag_total: u8,
    pub slots: Vec<Option<Vec<u8>>>,
    pub address: Address,
}

/// Mathematical value of a [`ReassemblyBuffer`].
#[verifier::ext_equal]
pub ghost struct BufferModel {
    pub associate_id: u32,
    pub packet_id: u16,
    pub frag_total: u8,
    pub slots: Seq<Option<Seq<u8>>>,
    pub address: AddrModel,
}

/// The slot sequence of a buffer, fragment payloads as byte sequences.
pub open spec fn slots_model(s: Seq<Option<Vec<u8>>>) -> Seq<Option<Seq<u8>>> {
    Seq::new(
        s.len(),
        |k: int|
            match s[k] {
                Some(v) => Some(v@),
                None => None,
            },
    )
}

impl View for ReassemblyBuffer {
    type V = BufferModel;

    open spec fn view(&self) -> BufferModel {
        BufferModel {
            associate_id: self.associate_id,
            packet_id: self.packet_id,
            frag_total: self.frag_total,
            slots: slots_model(self.slots@),
            address: self.address@,
        }
    }
}

/// Whether buffer `e` holds fragments of packet `packet_id` within
/// association `associate_id`.
pub open spec fn buf_key_matches(e: BufferModel, associate_id: u32, packet_id: u16) -> bool {
    e.associate_id == associate_id && e.packet_id == packet_id
}

/// Index of the buffer keyed `(associate_id, packet_id)` in `t`, or `-1`.
pub open spec fn find_buffer(t: Seq<BufferModel>, associate_id: u32, packet_id: u16) -> int
    decreases t.len(),
{
    if t.len() == 0 {
        -1
    } else if buf_key_matches(t[0], associate_id, packet_id) {
        0
    } else {
        let r = find_buffer(t.drop_first(), associate_id, packet_id);
        if r < 0 {
            -1
        } else {
            r + 1
        }
    }
}

/// [`find_buffer`] returns the first matching index, or `-1` exactly when no
/// buffer matches.
pub proof fn lemma_find_buffer(t: Seq<BufferModel>, associate_id: u32, packet_id: u16)
    ensures
        find_buffer(t, associate_id, packet_id) == -1 || 0 <= find_buffer(
            t,
            associate_id,
            packet_id,
        ) < t.len(),
        find_buffer(t, associate_id, packet_id) >= 0 ==> buf_key_matches(
            t[find_buffer(t, associate_id, packet_id)],
            associate_id,
            packet_id,
        ),
        find_buffer(t, associate_id, packet_id) >= 0 ==> forall|k: int|
            0 <= k < find_buffer(t, associate_id, packet_id) ==> !buf_key_matches(
                t[k],
                associate_id,
                packet_id,
            ),
        find_buffer(t, associate_id, packet_id) == -1 ==> forall|k: int|
            0 <= k < t.len() ==> !buf_key_matches(t[k], associate_id, packet_id),
    decreases t.len(),
{
    if t.len() > 0 && !buf_key_matches(t[0], associate_id, packet_id) {
        lemma_find_buffer(t.drop_first(), associate_id, packet_id);
        assert(forall|k: int| 1 <= k < t.len() ==> t[k] == t.drop_first()[k - 1]);
    }
}

/// Every slot of `s` is filled.
pub open spec fn all_slots_full(s: Seq<Option<Seq<u8>>>) -> bool {
    forall|k: int| 0 <= k < s.len() ==> s[k] is Some
}

/// Concatenation of the first `k` slot payloads, in slot order.
pub open spec fn concat_front(s: Seq<Option<Seq<u8>>>, k: int) -> Seq<u8>
    decreases k,
{
    if k <= 0 {
        Seq::empty()
    } else {
        concat_front(s, k - 1) + s[k - 1].unwrap()
    }
}

/// Concatenation of all slot payloads, in slot order.
pub open spec fn concat_slots(s: Seq<Option<Seq<u8>>>) -> Seq<u8> {
    concat_front(s, s.len() as int)
}

/// A buffer is well formed when its slot count is its fragment total (at
/// least two: unsplit packets are never buffered) and it is still
/// incomplete — a completed buffer is delivered and dropped at once.
pub open spec fn buffer_wf(e: BufferModel) -> bool {
    &&& 2 <= e.frag_total
    &&& e.slots.len() == e.frag_total
    &&& !all_slots_full(e.slots)
}

/// A reassembly table is well formed when every buffer is and no two
/// buffers share a key.
pub open spec fn table_wf(t: Seq<BufferModel>) -> bool {
    &&& forall|k: int| 0 <= k < t.len() ==> buffer_wf(#[trigger] t[k])
    &&& forall|k1: int, k2: int|
        0 <= k1 < k2 < t.len() ==> !buf_key_matches(
            #[trigger] t[k1],
            (#[trigger] t[k2]).associate_id,
            t[k2].packet_id,
        )
}

/// The buffer that a first fragment opens: its payload in its slot, every
/// other slot empty, the address taken from the fragment only if it is
/// fragment 0.
pub open spec fn new_buffer(f: FragModel) -> BufferModel {
    BufferModel {
        associate_id: f.packet.associate_id,
        packet_id: f.packet.id,
        frag_total: f.frag_total,
        slots: Seq::new(
            f.frag_total as nat,
            |k: int|
                if k == f.frag_id {
                    Some(f.packet.data)
                } else {
                    None
                },
        ),
        address: if f.frag_id == 0 {
            f.packet.address
        } else {
            AddrModel::Unspecified
        },
    }
}

/// A fragment written into its slot of an existing buffer: last write wins,
/// and a fragment 0 refreshes the buffer's address.
pub open spec fn insert_frag(e: BufferModel, f: FragModel) -> BufferModel {
    BufferModel {
        associate_id: e.associate_id,
        packet_id: e.packet_id,
        frag_total: e.frag_total,
        slots: e.slots.update(f.frag_id as int, Some(f.packet.data)),
        address: if f.frag_id == 0 {
            f.packet.address
        } else {
            e.address
        },
    }
}

/// The delivery that closes a completed buffer.
pub open spec fn delivery_of(associate_id: u32, address: AddrModel, payload: Seq<u8>) -> DeliveryModel {
    DeliveryModel { associate_id, address, payload }
}

/// One reassembly step: what accepting fragment `f` does to table `t`, and
/// what it delivers.
///
/// An unsplit packet passes straight through. Otherwise the fragment joins
/// its keyed buffer (opening one if none exists); a fragment whose declared
/// total contradicts the buffer's is dropped; a fragment that fills the last
/// empty slot closes the buffer and delivers the concatenation of its slots.
pub open spec fn step(t: Seq<BufferModel>, f: FragModel) -> (Seq<BufferModel>, Option<
    DeliveryModel,
>) {
    if f.frag_total == 1 {
        (t, Some(delivery_of(f.packet.associate_id, f.packet.address, f.packet.data)))
    } else {
        let i = find_buffer(t, f.packet.associate_id, f.packet.id);
        if i < 0 {
            (t.push(new_buffer(f)), None)
        } else if t[i].frag_total != f.frag_total {
            (t, None)
        } else {
            let e2 = insert_frag(t[i], f);
            if all_slots_full(e2.slots) {
                (
                    t.remove(i),
                    Some(delivery_of(f.packet.associate_id, e2.address, concat_slots(e2.slots))),
                )
            } else {
                (t.update(i, e2), None)
            }
        }
    }
}

/// Table `t` with every buffer of association `associate_id` discarded.
pub open spec fn purge(t: Seq<BufferModel>, associate_id: u32) -> Seq<BufferModel>
    decreases t.len(),
{
    if t.len() == 0 {
        t
    } else {
        let rest = purge(t.drop_first(), associate_id);
        if t[0].associate_id == associate_id {
            rest
        } else {
            seq![t[0]] + rest
        }
    }
}

/// After a purge no buffer of the association remains.
pub proof fn lemma_purge_no_assoc(t: Seq<BufferModel>, associate_id: u32)
    ensures
        forall|k: int|
            0 <= k < purge(t, associate_id).len() ==> (#[trigger] purge(t, associate_id)[k])
                .associate_id != associate_id,
    decreases t.len(),
{
    if t.len() > 0 {
        lemma_purge_no_assoc(t.drop_first(), associate_id);
    }
}

/// The option's mathematical value, element-wise.
pub open spec fn delivery_opt_model(r: Option<Delivery>) -> Option<DeliveryModel> {
    match r {
        Some(d) => Some(d@),
        None => None,
    }
}

/// The relay dispatcher for one connection: the configured relay mode and
/// the table of in-flight reassemblies.
pub struct Dispatcher {
    pub mode: UdpRelayMode,
    pub table: Vec<ReassemblyBuffer>,
}

impl Dispatcher {
    /// Mathematical value of the reassembly table.
    pub open spec fn table_model(&self) -> Seq<BufferModel> {
        Seq::new(self.table@.len(), |k: int| self.table@[k]@)
    }

    /// Validity of the dispatcher's state.
    pub open spec fn wf(&self) -> bool {
        table_wf(self.table_model())
    }

    /// A dispatcher for a connection configured with relay mode `mode`; no
    /// reassembly is in flight.
    pub fn new(mode: UdpRelayMode) -> (r: Self)
        ensures
            r.wf(),
            r.mode == mode,
            r.table_model() == Seq::<BufferModel>::empty(),
    {
        let d = Self { mode, table: Vec::new() };
        proof {
            assert(d.table_model() =~= Seq::<BufferModel>::empty());
        }
        d
    }

    fn find_index(&self, associate_id: u32, packet_id: u16) -> (r: Option<usize>)
        ensures
            match r {
                Some(i) => find_buffer(self.table_model(), associate_id, packet_id) == i,
                None => find_buffer(self.table_model(), associate_id, packet_id) == -1,
            },
    {
        let mut i: usize = 0;
        while i < self.table.len()
            invariant
                i <= self.table@.len(),
                forall|k: int|
                    0 <= k < i ==> !buf_key_matches(
                        #[trigger] self.table_model()[k],
                        associate_id,
                        packet_id,
                    ),
            decreases self.table@.len() - i,
        {
            if self.table[i].associate_id == associate_id && self.table[i].packet_id == packet_id {
                proof {
                    let t = self.table_model();
                    lemma_find_buffer(t, associate_id, packet_id);
                    let fb = find_buffer(t, associate_id, packet_id);
                    assert(buf_key_matches(t[i as int], associate_id, packet_id));
                    if fb == -1 {
                        assert(!buf_key_matches(t[i as int], associate_id, packet_id));
                    } else if fb < i {
                        assert(!buf_key_matches(t[fb], associate_id, packet_id));
                        assert(buf_key_matches(t[fb], associate_id, packet_id));
                    } else if fb > i {
                        assert(!buf_key_matches(t[i as int], associate_id, packet_id));
                    }
                }
                return Some(i);
            }
            i = i + 1;
        }
        proof {
            lemma_find_buffer(self.table_model(), associate_id, packet_id);
        }
        None
    }

    /// The channel-agnostic reassembly step shared by both relay paths:
    /// accepts one fragment, updates the table as [`step`] says, and returns
    /// the delivery when the fragment completes its packet.
    pub fn accept_fragment(&mut self, f: PacketFragment) -> (r: Option<Delivery>)
        requires
            old(self).wf(),
            frag_wf(f@),
        ensures
            final(self).wf(),
            final(self).mode == old(self).mode,
            final(self).table_model() == step(old(self).table_model(), f@).0,
            delivery_opt_model(r) == step(old(self).table_model(), f@).1,
    {
        let ghost t0 = self.table_model();
        let PacketFragment { frag_id, frag_total, packet } = f;
        let crate::command::Packet { id, associate_id, address, data } = packet;
        if frag_total == 1 {
            return Some(Delivery { associate_id, address, payload: data });
        }
        let found = self.find_index(associate_id, id);
        proof {
            lemma_find_buffer(t0, associate_id, id);
        }
        match found {
            None => {
                let mut slots: Vec<Option<Vec<u8>>> = Vec::new();
                let mut k: usize = 0;
                while k < frag_total as usize
                    invariant
                        k <= frag_total as usize,
                        slots@.len() == k,
                        forall|j: int| 0 <= j < k ==> slots@[j] is None,
                    decreases frag_total as usize - k,
                {
                    slots.push(None);
                    k = k + 1;
                }
                slots[frag_id as usize] = Some(data);
                let buf = ReassemblyBuffer {
                    associate_id,
                    packet_id: id,
                    frag_total,
                    address: if frag_id == 0 {
                        address
                    } else {
                        Address::Unspecified
                    },
                    slots,
                };
                proof {
                    assert(buf@.slots =~~= new_buffer(f@).slots);
                    assert(buf@ =~~= new_buffer(f@));
                }
                self.table.push(buf);
                proof {
                    assert(self.table_model() =~~= t0.push(new_buffer(f@)));
                    assert(!all_slots_full(new_buffer(f@).slots)) by {
                        let nb = new_buffer(f@);
                        if f@.frag_id == 0 {
                            assert(nb.slots[1] is None);
                        } else {
                            assert(nb.slots[0] is None);
                        }
                    }
                    assert(table_wf(self.table_model()));
                }
                None
            },
            Some(i) => {
                if self.table[i].frag_total != frag_total {
                    return None;
                }
                let ghost e2 = insert_frag(t0[i as int], f@);
                let buf = &mut self.table[i];
                buf.slots[frag_id as usize] = Some(data);
                if frag_id == 0 {
                    buf.address = address;
                }
                proof {
                    assert(self.table@[i as int]@.slots =~~= e2.slots);
                    assert(self.table@[i as int]@ =~~= e2);
                    assert(self.table_model() =~~= t0.update(i as int, e2));
                }
                let complete = slots_complete(&self.table[i].slots);
                if complete {
                    let closed = self.table.remove(i);
                    let payload = concat_exec(&closed.slots);
                    proof {
                        assert(self.table_model() =~~= t0.remove(i as int));
                        assert(table_wf(self.table_model()));
                    }
                    Some(Delivery { associate_id, address: closed.address, payload })
                } else {
                    proof {
                        assert(table_wf(self.table_model()));
                    }
                    None
                }
            },
        }
    }
    /// Entry point for a `Packet` decoded from a unidirectional stream:
    /// legal only under reliable-stream relay mode. Under native-datagram
    /// mode the unit is rejected as arriving from the wrong path and the
    /// table is untouched.
    pub fn on_unidirectional_packet(&mut self, f: PacketFragment) -> (r: Result<
        Option<Delivery>,
        Error,
    >)
        requires
            old(self).wf(),
            frag_wf(f@),
        ensures
            final(self).wf(),
            final(self).mode == old(self).mode,
            old(self).mode is Native ==> r == Err::<Option<Delivery>, Error>(
                Error::WrongPacketSource,
            ) && final(self).table_model() == old(self).table_model(),
            old(self).mode is Quic ==> {
                &&& r matches Ok(d) && delivery_opt_model(d) == step(
                    old(self).table_model(),
                    f@,
                ).1
                &&& final(self).table_model() == step(old(self).table_model(), f@).0
            },
    {
        match self.mode {
            UdpRelayMode::Native => Err(Error::WrongPacketSource),
            UdpRelayMode::Quic => Ok(self.accept_fragment(f)),
        }
    }

    /// Entry point for a `Packet` decoded from a transport datagram: legal
    /// only under native-datagram relay mode; the symmetric rejection
    /// otherwise.
    pub fn on_datagram_packet(&mut self, f: PacketFragment) -> (r: Result<Option<Delivery>, Error>)
        requires
            old(self).wf(),
            frag_wf(f@),
        ensures
            final(self).wf(),
            final(self).mode == old(self).mode,
            old(self).mode is Quic ==> r == Err::<Option<Delivery>, Error>(
                Error::WrongPacketSource,
            ) && final(self).table_model() == old(self).table_model(),
            old(self).mode is Native ==> {
                &&& r matches Ok(d) && delivery_opt_model(d) == step(
                    old(self).table_model(),
                    f@,
                ).1
                &&& final(self).table_model() == step(old(self).table_model(), f@).0
            },
    {
        match self.mode {
            UdpRelayMode::Quic => Err(Error::WrongPacketSource),
            UdpRelayMode::Native => Ok(self.accept_fragment(f)),
        }
    }

    /// Discards every reassembly buffer of one association, honouring its
    /// `Dissociate` or teardown: partial fragments of a dissociated
    /// association are never delivered.
    pub fn purge_association(&mut self, associate_id: u32)
        requires
            old(self).wf(),
        ensures
            final(self).wf(),
            final(self).mode == old(self).mode,
            final(self).table_model() == purge(old(self).table_model(), associate_id),
    {
        let ghost t0 = self.table_model();
        let ghost n = t0.len() as int;
        let mut i: usize = self.table.len();
        proof {
            assert(t0.subrange(n, n).len() == 0);
            assert(t0 =~~= t0.subrange(0, n) + purge(t0.subrange(n, n), associate_id));
        }
        while i > 0
            invariant
                i <= t0.len(),
                self.mode == old(self).mode,
                table_wf(t0),
                table_wf(self.table_model()),
                self.table_model() =~~= t0.subrange(0, i as int) + purge(
                    t0.subrange(i as int, t0.len() as int),
                    associate_id,
                ),
            decreases i,
        {
            let ghost n = t0.len() as int;
            let idx = i - 1;
            let ghost cur = self.table_model();
            proof {
                assert(cur[idx as int] == t0[idx as int]);
                assert(t0.subrange(idx as int, n).drop_first() =~~= t0.subrange(i as int, n));
                assert(t0.subrange(idx as int, n)[0] == t0[idx as int]);
            }
            if self.table[idx].associate_id == associate_id {
                let _ = self.table.remove(idx);
                proof {
                    assert(self.table_model() =~~= cur.remove(idx as int));
                    assert(self.table_model() =~~= t0.subrange(0, idx as int) + purge(
                        t0.subrange(idx as int, n),
                        associate_id,
                    ));
                    assert(table_wf(self.table_model()));
                }
            } else {
                proof {
                    assert(purge(t0.subrange(idx as int, n), associate_id) =~~= seq![
                        t0[idx as int],
                    ] + purge(t0.subrange(i as int, n), associate_id));
                    assert(self.table_model() =~~= t0.subrange(0, idx as int) + purge(
                        t0.subrange(idx as int, n),
                        associate_id,
                    ));
                }
            }
            i = idx;
        }
        proof {
            assert(self.table_model() =~~= purge(t0, associate_id));
        }
    }

    /// Evicts one incomplete reassembly buffer, chosen by the caller's
    /// bounded-memory policy (time-based or otherwise — the trigger is
    /// external configuration, not protocol). Returns whether a buffer of
    /// that key existed.
    pub fn evict_buffer(&mut self, associate_id: u32, packet_id: u16) -> (r: bool)
        requires
            old(self).wf(),
        ensures
            final(self).wf(),
            final(self).mode == old(self).mode,
            ({
                let t0 = old(self).table_model();
                let i = find_buffer(t0, associate_id, packet_id);
                if i >= 0 {
                    r && final(self).table_model() == t0.remove(i)
                } else {
                    !r && final(self).table_model() == t0
                }
            }),
    {
        let ghost t0 = self.table_model();
        proof {
            lemma_find_buffer(t0, associate_id, packet_id);
        }
        match self.find_index(associate_id, packet_id) {
            Some(i) => {
                let _ = self.table.remove(i);
                proof {
                    assert(self.table_model() =~~= t0.remove(i as int));
                    assert(table_wf(self.table_model()));
                }
                true
            },
            None => false,
        }
    }
}

/// Whether every slot is filled.
fn slots_complete(slots: &Vec<Option<Vec<u8>>>) -> (r: bool)
    ensures
        r == all_slots_full(slots_model(slots@)),
{
    let mut k: usize = 0;
    while k < slots.len()
        invariant
            k <= slots@.len(),
            forall|j: int| 0 <= j < k ==> slots_model(slots@)[j] is Some,
        decreases slots@.len() - k,
    {
        match &slots[k] {
            None => {
                proof {
                    assert(slots_model(slots@)[k as int] is None);
                }
                return false;
            },
            Some(_) => {
                proof {
                    assert(slots_model(slots@)[k as int] is Some);
                }
            },
        }
        k = k + 1;
    }
    true
}

/// Concatenates the filled slots in slot order.
fn concat_exec(slots: &Vec<Option<Vec<u8>>>) -> (r: Vec<u8>)
    requires
        all_slots_full(slots_model(slots@)),
    ensures
        r@ == concat_slots(slots_model(slots@)),
{
    let ghost m = slots_model(slots@);
    let mut out: Vec<u8> = Vec::new();
    let mut s: usize = 0;
    while s < slots.len()
        invariant
            s <= slots@.len(),
            m == slots_model(slots@),
            all_slots_full(m),
            out@ == concat_front(m, s as int),
        decreases slots@.len() - s,
    {
        let ghost out0 = out@;
        match &slots[s] {
            Some(v) => {
                let mut b: usize = 0;
                while b < v.len()
                    invariant
                        b <= v@.len(),
                        v@ == slots@[s as int].unwrap()@,
                        s < slots@.len(),
                        m == slots_model(slots@),
                        out@ == out0 + v@.subrange(0, b as int),
                    decreases v@.len() - b,
                {
                    out.push(v[b]);
                    proof {
                        assert(out@ =~= out0 + v@.subrange(0, b as int + 1));
                    }
                    b = b + 1;
                }
                proof {
                    assert(v@.subrange(0, v@.len() as int) =~= v@);
                    assert(out@ == concat_front(m, s as int + 1));
                }
            },
            None => {
                proof {
                    assert(false);
                }
            },
        }
        s = s + 1;
    }
    proof {
        assert(s as int == m.len());
    }
    out
}

} // verus!
