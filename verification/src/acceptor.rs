//! Adaptive stream-concurrency accounting for one class of transport streams.

use vstd::prelude::*;

verus! {

/// The largest ceiling this accounting will grow to. Doubling stops here so
/// that the ceiling always fits the transport's flow-control integer; the
/// value is far beyond any realistic number of live proxy streams.
pub const CEILING_CAP: u32 = 0x8000_0000;

/// Live-stream count and concurrency ceiling for one stream class
/// (unidirectional or bidirectional).
///
/// A stream is *live* from acceptance until its handling task releases its
/// slot. Before every acceptance the caller asks [`StreamCounter::begin_accept`]
/// whether the ceiling is exhausted; if so the ceiling doubles and the new
/// value must be propagated to the transport's flow-control parameter.
/// Ceilings grow monotonically for the life of the connection and never
/// shrink. Datagrams are not flow-controlled per unit and have no counter.
pub struct StreamCounter {
    /// Number of currently live streams of this class.
    pub live: u32,
    /// Current concurrency ceiling advertised to the peer.
    pub ceiling: u32,
}

impl StreamCounter {
    /// Well-formedness: the ceiling is positive, capped, and never exceeded
    /// by the live count.
    pub open spec fn wf(&self) -> bool {
        &&& 1 <= self.ceiling <= CEILING_CAP
        &&& self.live <= self.ceiling
    }

    /// A counter for a class whose transport-negotiated initial ceiling is
    /// `initial_ceiling`.
    pub fn new(initial_ceiling: u32) -> (r: Self)
        requires
            1 <= initial_ceiling <= CEILING_CAP,
        ensures
            r.wf(),
            r.live == 0,
            r.ceiling == initial_ceiling,
    {
        Self { live: 0, ceiling: initial_ceiling }
    }

    /// Called before suspending on the transport's accept. If the live count
    /// has reached the ceiling, the ceiling doubles; the returned value, when
    /// present, is the new ceiling the caller must advertise to the transport.
    /// The ceiling never decreases.
    pub fn begin_accept(&mut self) -> (r: Option<u32>)
        requires
            old(self).wf(),
        ensures
            final(self).wf(),
            final(self).live == old(self).live,
            final(self).ceiling >= old(self).ceiling,
            old(self).live == old(self).ceiling && old(self).ceiling <= CEILING_CAP / 2 ==> {
                &&& final(self).ceiling == 2 * old(self).ceiling
                &&& r == Some(final(self).ceiling)
            },
            old(self).live != old(self).ceiling ==> final(self).ceiling == old(self).ceiling
                && r is None,
            old(self).live == old(self).ceiling && old(self).ceiling > CEILING_CAP / 2
                ==> final(self).ceiling == old(self).ceiling && r is None,
    {
        if self.live == self.ceiling && self.ceiling <= CEILING_CAP / 2 {
            self.ceiling = self.ceiling * 2;
            Some(self.ceiling)
        } else {
            None
        }
    }

    /// Registers a newly accepted stream as live. The ceiling is unchanged.
    pub fn register(&mut self)
        requires
            old(self).wf(),
            old(self).live < old(self).ceiling,
        ensures
            final(self).wf(),
            final(self).live == old(self).live + 1,
            final(self).ceiling == old(self).ceiling,
    {
        self.live = self.live + 1;
    }

    /// Releases the slot of a stream whose handling task has finished. The
    /// ceiling is unchanged.
    pub fn release(&mut self)
        requires
            old(self).wf(),
            old(self).live >= 1,
        ensures
            final(self).wf(),
            final(self).live == old(self).live - 1,
            final(self).ceiling == old(self).ceiling,
    {
        self.live = self.live - 1;
    }
}

} // verus!
