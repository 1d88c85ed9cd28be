//! The scheduler hook adapter: binds the six instrumented lifecycle
//! callbacks to the compact codec, the delta clock and the bounded sink.
//!
//! Each hook encodes one compact record on the stack and hands it to the
//! sink whole; nothing here allocates unboundedly or blocks.  The embedding
//! samples the hardware tick counter and serializes calls (on a live target,
//! a critical section around each hook), so the adapter itself is plain
//! owned state.  The wider instrumentation surface's other
//! callbacks (markers, ISR enter and exit, task metadata) are deliberate
//! no-ops in this implementation and have no adapter entry.

use vstd::prelude::*;

use crate::clock::{delta_spec, TimestampClock};
use crate::sink::TraceSink;
use crate::varint::{encode_u32, varint};
use crate::wire::{message_record, Message};

verus! {

/// What one hook firing does to the sink: appends the whole record when it
/// fits in the free space, else leaves the sink untouched (skip-on-full).
pub open spec fn sink_after(sink: TraceSink, rec: Seq<u8>) -> Seq<u8> {
    if rec.len() <= sink.capacity - sink.buffered@.len() {
        sink.buffered@ + rec
    } else {
        sink.buffered@
    }
}

/// The hook adapter: delta clock plus output channel.
#[derive(Debug)]
pub struct Tracer {
    pub clock: TimestampClock,
    pub sink: TraceSink,
}

impl Tracer {
    pub open spec fn wf(&self) -> bool {
        self.sink.wf()
    }

    /// What every hook guarantees: the clock now remembers `now`, and the
    /// sink took the record of `m` whole or not at all.
    pub open spec fn hook_post(&self, pre: Tracer, now: u32, m: Message) -> bool {
        &&& self.wf()
        &&& self.sink.capacity == pre.sink.capacity
        &&& self.clock == (TimestampClock { last: now, primed: true })
        &&& self.sink.buffered@ == sink_after(pre.sink, message_record(m))
    }

    /// A fresh adapter over an empty sink of the given capacity.
    pub fn new(capacity: usize) -> (t: Self)
        ensures
            t.wf(),
            t.sink.capacity == capacity,
            t.sink.buffered@ == Seq::<u8>::empty(),
            !t.clock.primed,
    {
        Tracer { clock: TimestampClock::new(), sink: TraceSink::new(capacity) }
    }

    /// A task came into existence.
    pub fn task_new(&mut self, id: u32, now: u32)
        requires
            old(self).wf(),
        ensures
            final(self).hook_post(
                *old(self),
                now,
                Message::TaskNew(id, delta_spec(old(self).clock, now)),
            ),
    {
        let delta = self.clock.sample_and_delta(now);
        post_record2(&mut self.sink, 1, id, delta);
    }

    /// A task was scheduled and starts executing.
    pub fn task_exec_begin(&mut self, id: u32, now: u32)
        requires
            old(self).wf(),
        ensures
            final(self).hook_post(
                *old(self),
                now,
                Message::TaskExecBegin(id, delta_spec(old(self).clock, now)),
            ),
    {
        let delta = self.clock.sample_and_delta(now);
        post_record2(&mut self.sink, 2, id, delta);
    }

    /// The running task stops executing.
    pub fn task_exec_end(&mut self, now: u32)
        requires
            old(self).wf(),
        ensures
            final(self).hook_post(
                *old(self),
                now,
                Message::TaskExecEnd(delta_spec(old(self).clock, now)),
            ),
    {
        let delta = self.clock.sample_and_delta(now);
        post_record1(&mut self.sink, 3, delta);
    }

    /// A task became ready to run.
    pub fn task_ready_begin(&mut self, id: u32, now: u32)
        requires
            old(self).wf(),
        ensures
            final(self).hook_post(
                *old(self),
                now,
                Message::TaskReadyBegin(id, delta_spec(old(self).clock, now)),
            ),
    {
        let delta = self.clock.sample_and_delta(now);
        post_record2(&mut self.sink, 4, id, delta);
    }

    /// A task stopped being ready.
    pub fn task_ready_end(&mut self, id: u32, now: u32)
        requires
            old(self).wf(),
        ensures
            final(self).hook_post(
                *old(self),
                now,
                Message::TaskReadyEnd(id, delta_spec(old(self).clock, now)),
            ),
    {
        let delta = self.clock.sample_and_delta(now);
        post_record2(&mut self.sink, 5, id, delta);
    }

    /// The scheduler went idle.
    pub fn system_idle(&mut self, now: u32)
        requires
            old(self).wf(),
        ensures
            final(self).hook_post(
                *old(self),
                now,
                Message::SystemIdle(delta_spec(old(self).clock, now)),
            ),
    {
        let delta = self.clock.sample_and_delta(now);
        post_record1(&mut self.sink, 6, delta);
    }
}

/// Encode `[op, varint(delta)]` into a stack buffer and offer it to the sink.
fn post_record1(sink: &mut TraceSink, op: u8, delta: u32)
    requires
        old(sink).wf(),
    ensures
        final(sink).wf(),
        final(sink).capacity == old(sink).capacity,
        final(sink).buffered@ == sink_after(*old(sink), seq![op] + varint(delta)),
{
    let ghost rec = seq![op] + varint(delta);
    proof {
        crate::varint::lemma_varint_len(delta);
    }
    let mut buffer: Vec<u8> = vec![0u8; 16];
    buffer[0] = op;
    let pos = encode_u32(delta, &mut buffer, 1);
    proof {
        assert(buffer@.subrange(0, pos as int) =~= rec);
    }
    sink.post(vstd::slice::slice_subrange(buffer.as_slice(), 0, pos));
}

/// Encode `[op, varint(id), varint(delta)]` into a stack buffer and offer
/// it to the sink.
fn post_record2(sink: &mut TraceSink, op: u8, id: u32, delta: u32)
    requires
        old(sink).wf(),
    ensures
        final(sink).wf(),
        final(sink).capacity == old(sink).capacity,
        final(sink).buffered@ == sink_after(*old(sink), seq![op] + varint(id) + varint(delta)),
{
    let ghost rec = seq![op] + varint(id) + varint(delta);
    proof {
        crate::varint::lemma_varint_len(id);
        crate::varint::lemma_varint_len(delta);
    }
    let mut buffer: Vec<u8> = vec![0u8; 16];
    buffer[0] = op;
    let pos = encode_u32(id, &mut buffer, 1);
    let pos = encode_u32(delta, &mut buffer, pos);
    proof {
        assert(buffer@.subrange(0, pos as int) =~= rec);
    }
    sink.post(vstd::slice::slice_subrange(buffer.as_slice(), 0, pos));
}

} // verus!
