//! Client-side relay engine of a proxy protocol tunneled over an encrypted,
//! multiplexed transport.
//!
//! The library multiplexes logical TCP/UDP proxy sessions onto one transport
//! connection: it decodes inbound stream and datagram units into typed
//! protocol commands, relays UDP payloads that arrive split into fragments
//! (reassembling them whatever the arrival order), and keeps the transport's
//! per-class stream concurrency ceilings elastic by doubling a ceiling
//! whenever it is exhausted.
//!
//! The transport itself (handshake, stream I/O, datagram I/O) is an external
//! collaborator: the binary around this library feeds received bytes in and
//! carries the resulting deliveries and flow-control updates out.

pub mod acceptor;
pub mod address;
pub mod codec;
pub mod command;
pub mod connection;
pub mod laws;
pub mod relay;
