//! The connection aggregate: one transport session's relay state.
//!
//! A `Connection` owns the live-stream counters of both stream classes and
//! the relay dispatcher. The binary around the library runs one acceptance
//! loop per channel class against the transport; before each stream
//! acceptance it consults the counter (propagating a doubled ceiling to the
//! transport when one is returned), and it hands every unit read from a
//! stream or datagram to the matching `handle_*` method here, which decodes
//! it and drives the relay. Per-unit errors are returned, never escalated:
//! one bad unit leaves every buffer and counter as the contract states, and
//! only transport-level failures (outside this library) end the connection.

use vstd::prelude::*;

use crate::acceptor::{StreamCounter, CEILING_CAP};
use crate::codec::{
    decode_bidirectional, decode_datagram, decode_unidirectional, parse_bi, parse_datagram,
    parse_uni,
};
use crate::command::{BiCommand, UniCommand, UniCommandModel};
use crate::relay::{
    delivery_opt_model, purge, step, Delivery, Dispatcher, Error, UdpRelayMode,
};

verus! {

/// Relay state of one transport connection.
pub struct Connection {
    /// Live-count and ceiling of incoming unidirectional streams.
    pub uni_streams: StreamCounter,
    /// Live-count and ceiling of incoming bidirectional streams.
    pub bi_streams: StreamCounter,
    /// The UDP relay dispatcher, carrying the configured relay mode.
    pub relay: Dispatcher,
}

impl Connection {
    /// Validity of all owned state.
    pub open spec fn wf(&self) -> bool {
        &&& self.uni_streams.wf()
        &&& self.bi_streams.wf()
        &&& self.relay.wf()
    }

    /// The relay mode this connection was configured with; immutable for
    /// the connection's lifetime.
    pub open spec fn mode(&self) -> UdpRelayMode {
        self.relay.mode
    }

    /// A connection configured with relay mode `mode` and the
    /// transport-negotiated initial stream ceilings.
    pub fn new(mode: UdpRelayMode, uni_ceiling: u32, bi_ceiling: u32) -> (r: Self)
        requires
            1 <= uni_ceiling <= CEILING_CAP,
            1 <= bi_ceiling <= CEILING_CAP,
        ensures
            r.wf(),
            r.mode() == mode,
            r.uni_streams.live == 0 && r.uni_streams.ceiling == uni_ceiling,
            r.bi_streams.live == 0 && r.bi_streams.ceiling == bi_ceiling,
            r.relay.table_model() == Seq::<crate::relay::BufferModel>::empty(),
    {
        Self {
            uni_streams: StreamCounter::new(uni_ceiling),
            bi_streams: StreamCounter::new(bi_ceiling),
            relay: Dispatcher::new(mode),
        }
    }

    /// The decision made before suspending on the transport's "accept next
    /// unidirectional stream": doubles the exhausted ceiling and reports the
    /// value to advertise, as [`StreamCounter::begin_accept`] states.
    pub fn begin_accept_uni(&mut self) -> (r: Option<u32>)
        requires
            old(self).wf(),
        ensures
            final(self).wf(),
            final(self).bi_streams == old(self).bi_streams,
            final(self).relay == old(self).relay,
            final(self).uni_streams.live == old(self).uni_streams.live,
            final(self).uni_streams.ceiling >= old(self).uni_streams.ceiling,
            old(self).uni_streams.live == old(self).uni_streams.ceiling
                && old(self).uni_streams.ceiling <= CEILING_CAP / 2 ==> {
                &&& final(self).uni_streams.ceiling == 2 * old(self).uni_streams.ceiling
                &&& r == Some(final(self).uni_streams.ceiling)
            },
            old(self).uni_streams.live != old(self).uni_streams.ceiling
                ==> final(self).uni_streams.ceiling == old(self).uni_streams.ceiling && r is None,
    {
        self.uni_streams.begin_accept()
    }

    /// The same decision for the bidirectional class.
    pub fn begin_accept_bi(&mut self) -> (r: Option<u32>)
        requires
            old(self).wf(),
        ensures
            final(self).wf(),
            final(self).uni_streams == old(self).uni_streams,
            final(self).relay == old(self).relay,
            final(self).bi_streams.live == old(self).bi_streams.live,
            final(self).bi_streams.ceiling >= old(self).bi_streams.ceiling,
            old(self).bi_streams.live == old(self).bi_streams.ceiling
                && old(self).bi_streams.ceiling <= CEILING_CAP / 2 ==> {
                &&& final(self).bi_streams.ceiling == 2 * old(self).bi_streams.ceiling
                &&& r == Some(final(self).bi_streams.ceiling)
            },
            old(self).bi_streams.live != old(self).bi_streams.ceiling
                ==> final(self).bi_streams.ceiling == old(self).bi_streams.ceiling && r is None,
    {
        self.bi_streams.begin_accept()
    }

    /// Registers an accepted unidirectional stream as live.
    pub fn register_uni(&mut self)
        requires
            old(self).wf(),
            old(self).uni_streams.live < old(self).uni_streams.ceiling,
        ensures
            final(self).wf(),
            final(self).bi_streams == old(self).bi_streams,
            final(self).relay == old(self).relay,
            final(self).uni_streams.live == old(self).uni_streams.live + 1,
            final(self).uni_streams.ceiling == old(self).uni_streams.ceiling,
    {
        self.uni_streams.register()
    }

    /// Registers an accepted bidirectional stream as live.
    pub fn register_bi(&mut self)
        requires
            old(self).wf(),
            old(self).bi_streams.live < old(self).bi_streams.ceiling,
        ensures
            final(self).wf(),
            final(self).uni_streams == old(self).uni_streams,
            final(self).relay == old(self).relay,
            final(self).bi_streams.live == old(self).bi_streams.live + 1,
            final(self).bi_streams.ceiling == old(self).bi_streams.ceiling,
    {
        self.bi_streams.register()
    }

    /// Releases a finished unidirectional stream's slot.
    pub fn release_uni(&mut self)
        requires
            old(self).wf(),
            old(self).uni_streams.live >= 1,
        ensures
            final(self).wf(),
            final(self).bi_streams == old(self).bi_streams,
            final(self).relay == old(self).relay,
            final(self).uni_streams.live == old(self).uni_streams.live - 1,
            final(self).uni_streams.ceiling == old(self).uni_streams.ceiling,
    {
        self.uni_streams.release()
    }

    /// Releases a finished bidirectional stream's slot.
    pub fn release_bi(&mut self)
        requires
            old(self).wf(),
            old(self).bi_streams.live >= 1,
        ensures
            final(self).wf(),
            final(self).uni_streams == old(self).uni_streams,
            final(self).relay == old(self).relay,
            final(self).bi_streams.live == old(self).bi_streams.live - 1,
            final(self).bi_streams.ceiling == old(self).bi_streams.ceiling,
    {
        self.bi_streams.release()
    }

    /// Handles one unit read whole from an accepted unidirectional stream:
    /// decodes it and, for a `Packet`, drives the relay (legal only under
    /// reliable-stream mode); a `Dissociate` discards its association's
    /// buffers; a `Heartbeat` does nothing. The returned delivery, if any,
    /// is handed to the local UDP-facing collaborator by the caller.
    pub fn handle_uni_bytes(&mut self, b: &Vec<u8>) -> (r: Result<Option<Delivery>, Error>)
        requires
            old(self).wf(),
        ensures
            final(self).wf(),
            final(self).mode() == old(self).mode(),
            final(self).uni_streams == old(self).uni_streams,
            final(self).bi_streams == old(self).bi_streams,
            ({
                let t0 = old(self).relay.table_model();
                let t1 = final(self).relay.table_model();
                match parse_uni(b@) {
                    Err(e) => r == Err::<Option<Delivery>, Error>(Error::Decode(e)) && t1 == t0,
                    Ok(c) => match c {
                        UniCommandModel::Packet(f) => if old(self).mode() is Quic {
                            &&& r matches Ok(d) && delivery_opt_model(d) == step(t0, f).1
                            &&& t1 == step(t0, f).0
                        } else {
                            r == Err::<Option<Delivery>, Error>(Error::WrongPacketSource) && t1
                                == t0
                        },
                        UniCommandModel::Dissociate { associate_id } => r == Ok::<
                            Option<Delivery>,
                            Error,
                        >(None) && t1 == purge(t0, associate_id),
                        UniCommandModel::Heartbeat => r == Ok::<Option<Delivery>, Error>(None)
                            && t1 == t0,
                    },
                }
            }),
    {
        match decode_unidirectional(b) {
            Err(e) => Err(Error::Decode(e)),
            Ok(UniCommand::Packet(f)) => self.relay.on_unidirectional_packet(f),
            Ok(UniCommand::Dissociate { associate_id }) => {
                self.relay.purge_association(associate_id);
                Ok(None)
            },
            Ok(UniCommand::Heartbeat) => Ok(None),
        }
    }

    /// Handles one unit read whole from an accepted bidirectional stream.
    /// Bidirectional streams never carry `Packet` in this protocol — the
    /// decoder narrows them to session-establishment commands, which are
    /// returned to the session layer outside this relay core.
    pub fn handle_bi_bytes(&self, b: &Vec<u8>) -> (r: Result<BiCommand, Error>)
        ensures
            match parse_bi(b@) {
                Err(e) => r == Err::<BiCommand, Error>(Error::Decode(e)),
                Ok(c) => r matches Ok(rc) && rc@ == c,
            },
    {
        match decode_bidirectional(b) {
            Err(e) => Err(Error::Decode(e)),
            Ok(c) => Ok(c),
        }
    }

    /// Handles one transport datagram: decodes it and drives the relay
    /// (legal only under native-datagram mode).
    pub fn handle_datagram_bytes(&mut self, b: &Vec<u8>) -> (r: Result<Option<Delivery>, Error>)
        requires
            old(self).wf(),
        ensures
            final(self).wf(),
            final(self).mode() == old(self).mode(),
            final(self).uni_streams == old(self).uni_streams,
            final(self).bi_streams == old(self).bi_streams,
            ({
                let t0 = old(self).relay.table_model();
                let t1 = final(self).relay.table_model();
                match parse_datagram(b@) {
                    Err(e) => r == Err::<Option<Delivery>, Error>(Error::Decode(e)) && t1 == t0,
                    Ok(f) => if old(self).mode() is Native {
                        &&& r matches Ok(d) && delivery_opt_model(d) == step(t0, f).1
                        &&& t1 == step(t0, f).0
                    } else {
                        r == Err::<Option<Delivery>, Error>(Error::WrongPacketSource) && t1 == t0
                    },
                }
            }),
    {
        match decode_datagram(b) {
            Err(e) => Err(Error::Decode(e)),
            Ok(f) => self.relay.on_datagram_packet(f),
        }
    }
}

} // verus!
