//! The bounded, non-blocking trace output channel.
//!
//! Scheduler hooks must never stall real scheduling work, so the sink's
//! write policy is skip-on-full: a record that does not fit in the free
//! space is dropped whole, never written partially, and the caller is not
//! blocked.  Trace completeness is sacrificed under overload, latency never.

use vstd::prelude::*;

verus! {

/// A bounded byte channel with all-or-nothing writes.
#[derive(Debug)]
pub struct TraceSink {
    /// Bytes accepted and not yet drained, oldest first.
    pub buffered: Vec<u8>,
    /// The fixed channel capacity in bytes.
    pub capacity: usize,
}

impl TraceSink {
    /// The channel never holds more than its capacity.
    pub open spec fn wf(&self) -> bool {
        self.buffered@.len() <= self.capacity
    }

    /// An empty channel of the given capacity.
    pub fn new(capacity: usize) -> (s: Self)
        ensures
            s.wf(),
            s.capacity == capacity,
            s.buffered@ == Seq::<u8>::empty(),
    {
        TraceSink { buffered: Vec::new(), capacity }
    }

    /// Hand one whole record to the channel.  If the free space is smaller
    /// than the record, nothing at all is written and `false` comes back;
    /// otherwise the record is appended in full.
    pub fn post(&mut self, data: &[u8]) -> (accepted: bool)
        requires
            old(self).wf(),
        ensures
            final(self).wf(),
            final(self).capacity == old(self).capacity,
            accepted <==> data@.len() <= old(self).capacity - old(self).buffered@.len(),
            accepted ==> final(self).buffered@ == old(self).buffered@ + data@,
            !accepted ==> final(self).buffered@ == old(self).buffered@,
    {
        let n = data.len();
        let used = self.buffered.len();
        if n > self.capacity - used {
            return false;
        }
        let mut i: usize = 0;
        while i < n
            invariant
                i <= n,
                n == data@.len(),
                self.capacity == old(self).capacity,
                used == old(self).buffered@.len(),
                used + n <= self.capacity,
                self.buffered@ == old(self).buffered@ + data@.subrange(0, i as int),
            decreases n - i,
        {
            let ghost pre = self.buffered@;
            self.buffered.push(data[i]);
            proof {
                assert(self.buffered@ =~= old(self).buffered@ + data@.subrange(0, i + 1));
            }
            i = i + 1;
        }
        proof {
            assert(data@.subrange(0, n as int) =~= data@);
        }
        true
    }

    /// Take every buffered byte out of the channel, oldest first, leaving
    /// it empty.  This is the reader's side of the transport.
    pub fn drain(&mut self) -> (r: Vec<u8>)
        requires
            old(self).wf(),
        ensures
            final(self).wf(),
            final(self).capacity == old(self).capacity,
            r@ == old(self).buffered@,
            final(self).buffered@ == Seq::<u8>::empty(),
    {
        let mut taken: Vec<u8> = Vec::new();
        core::mem::swap(&mut taken, &mut self.buffered);
        taken
    }
}

} // verus!
