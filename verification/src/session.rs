//! Bytes every session sends regardless of transport: the fixed
//! identification reply that answers the host's HELLO, and the four-event
//! bootstrap sequence that must open every trace so the viewer can scale
//! and label what follows.

use vstd::prelude::*;

use crate::packet::{event_bytes, event_wf, Event};

verus! {

/// The fixed identification block: tool name, a three-part version number,
/// a terminating NUL, and padding to thirty-two bytes.
pub open spec fn id_bytes() -> Seq<u8> {
    seq![
        83u8, 69u8, 71u8, 71u8, 69u8, 82u8, 32u8, 83u8, 121u8, 115u8, 116u8, 101u8, 109u8, 86u8,
        105u8, 101u8, 119u8, 32u8, 86u8, 51u8, 46u8, 48u8, 48u8, 46u8, 48u8, 48u8, 0u8, 0u8, 0u8,
        0u8, 0u8, 0u8,
    ]
}

/// Ten zero bytes establishing byte-stream alignment for the client decoder.
pub open spec fn sync_bytes() -> Seq<u8> {
    seq![0u8, 0u8, 0u8, 0u8, 0u8, 0u8, 0u8, 0u8, 0u8, 0u8]
}

/// Everything a session writes during the handshake.
pub open spec fn hello_reply_bytes() -> Seq<u8> {
    id_bytes() + sync_bytes()
}

/// The four bootstrap events in their required order: trace start, the
/// target description, the time base, and the (empty) module table.
pub open spec fn bootstrap_bytes(sys_freq: u32, cpu_freq: u32, ram_base: u32, id_shift: u32) -> Seq<
    u8,
> {
    event_bytes(Event::TraceStart { ts_delta: 0 }) + event_bytes(
        Event::Init { sys_freq, cpu_freq, ram_base, id_shift, ts_delta: 1 },
    ) + event_bytes(Event::SystimeCycles { time: 1000, ts_delta: 3 }) + event_bytes(
        Event::NumModules { modules: 0, ts_delta: 4 },
    )
}

/// Whether an event carries a string field.
pub open spec fn has_string(e: Event<'_>) -> bool {
    match e {
        Event::TaskInfo { .. } => true,
        Event::NameResource { .. } => true,
        Event::PrintFormatted { .. } => true,
        _ => false,
    }
}

/// A string-free event is well formed and its record fits the sessions'
/// thirty-two byte scratch buffer.
pub proof fn lemma_event_fits(e: Event<'_>)
    requires
        !has_string(e),
    ensures
        event_wf(e),
        event_bytes(e).len() <= 32,
{
    crate::varint::lemma_varint_len(crate::packet::event_ts(e));
    match e {
        Event::Overflow { dropped_packets, .. } => {
            crate::varint::lemma_varint_len(dropped_packets);
        },
        Event::IsrEnter { isr, .. } => {
            crate::varint::lemma_varint_len(isr as u32);
        },
        Event::TaskStartExec { task, .. } => {
            crate::varint::lemma_varint_len(task);
        },
        Event::TaskStartReady { task, .. } => {
            crate::varint::lemma_varint_len(task);
        },
        Event::TaskStopReady { task, cause, .. } => {
            crate::varint::lemma_varint_len(task);
            crate::varint::lemma_varint_len(crate::packet::cause_code(cause));
        },
        Event::TaskCreate { task, .. } => {
            crate::varint::lemma_varint_len(task);
        },
        Event::SystimeCycles { time, .. } => {
            crate::varint::lemma_varint_len(time);
        },
        Event::SystimeUs { time, .. } => {
            crate::varint::lemma_varint_len((time % 0x1_0000_0000) as u32);
            crate::varint::lemma_varint_len((time / 0x1_0000_0000) as u32);
        },
        Event::UserStart { user_id, .. } => {
            crate::varint::lemma_varint_len(user_id);
        },
        Event::UserStop { user_id, .. } => {
            crate::varint::lemma_varint_len(user_id);
        },
        Event::TimerEnter { timer_id, .. } => {
            crate::varint::lemma_varint_len(timer_id);
        },
        Event::StackInfo { task_id, stack_base, stack_size, .. } => {
            crate::varint::lemma_varint_len(task_id);
            crate::varint::lemma_varint_len(stack_base);
            crate::varint::lemma_varint_len(stack_size);
        },
        Event::Init { sys_freq, cpu_freq, ram_base, id_shift, .. } => {
            crate::varint::lemma_varint_len(sys_freq);
            crate::varint::lemma_varint_len(cpu_freq);
            crate::varint::lemma_varint_len(ram_base);
            crate::varint::lemma_varint_len(id_shift);
        },
        Event::NumModules { modules, .. } => {
            crate::varint::lemma_varint_len(modules);
        },
        Event::EndCall { event_id, .. } => {
            crate::varint::lemma_varint_len(event_id);
        },
        Event::TaskTerminate { task_id, .. } => {
            crate::varint::lemma_varint_len(task_id);
        },
        _ => {},
    }
}

/// Encode one event through a fixed thirty-two byte scratch buffer and
/// append its record to the outgoing queue.
pub fn emit_event(out: &mut Vec<u8>, e: &Event<'_>)
    requires
        event_wf(*e),
        event_bytes(*e).len() <= 32,
    ensures
        final(out)@ == old(out)@ + event_bytes(*e),
{
    let mut buf: Vec<u8> = vec![0u8; 32];
    let n = match e.encode(&mut buf) {
        Ok(n) => n,
        Err(_) => {
            proof {
                assert(false);
            }
            0
        },
    };
    let ghost pre = out@;
    proof {
        assert(out@ =~= pre + buf@.subrange(0, 0));
    }
    let mut i: usize = 0;
    while i < n
        invariant
            i <= n <= 32,
            n == event_bytes(*e).len(),
            buf@.len() == 32,
            buf@.subrange(0, n as int) == event_bytes(*e),
            out@ == pre + buf@.subrange(0, i as int),
        decreases n - i,
    {
        out.push(buf[i]);
        proof {
            assert(out@ =~= pre + buf@.subrange(0, i + 1));
        }
        i = i + 1;
    }
    proof {
        assert(out@ =~= pre + event_bytes(*e));
    }
}

/// Append the fixed handshake reply: the identification block, then the
/// ten-byte zero synchronization pattern.
pub fn push_hello_reply(out: &mut Vec<u8>)
    ensures
        final(out)@ == old(out)@ + hello_reply_bytes(),
{
    let ghost pre = out@;
    out.push(83);
    out.push(69);
    out.push(71);
    out.push(71);
    out.push(69);
    out.push(82);
    out.push(32);
    out.push(83);
    out.push(121);
    out.push(115);
    out.push(116);
    out.push(101);
    out.push(109);
    out.push(86);
    out.push(105);
    out.push(101);
    out.push(119);
    out.push(32);
    out.push(86);
    out.push(51);
    out.push(46);
    out.push(48);
    out.push(48);
    out.push(46);
    out.push(48);
    out.push(48);
    out.push(0);
    out.push(0);
    out.push(0);
    out.push(0);
    out.push(0);
    out.push(0);
    proof {
        assert(out@ =~= pre + id_bytes() + sync_bytes().subrange(0, 0));
    }
    let mut i: usize = 0;
    while i < 10
        invariant
            i <= 10,
            out@ == pre + id_bytes() + sync_bytes().subrange(0, i as int),
        decreases 10 - i,
    {
        out.push(0);
        proof {
            assert(out@ =~= pre + id_bytes() + sync_bytes().subrange(0, i + 1));
        }
        i = i + 1;
    }
    proof {
        assert(sync_bytes().subrange(0, 10) =~= sync_bytes());
        assert(out@ =~= old(out)@ + hello_reply_bytes());
    }
}

/// Append the four bootstrap events in their fixed order.
pub fn push_bootstrap(out: &mut Vec<u8>, sys_freq: u32, cpu_freq: u32, ram_base: u32, id_shift: u32)
    ensures
        final(out)@ == old(out)@ + bootstrap_bytes(sys_freq, cpu_freq, ram_base, id_shift),
{
    let ghost pre = out@;
    proof {
        lemma_event_fits(Event::TraceStart { ts_delta: 0 });
        lemma_event_fits(Event::Init { sys_freq, cpu_freq, ram_base, id_shift, ts_delta: 1 });
        lemma_event_fits(Event::SystimeCycles { time: 1000, ts_delta: 3 });
        lemma_event_fits(Event::NumModules { modules: 0, ts_delta: 4 });
    }
    emit_event(out, &Event::TraceStart { ts_delta: 0 });
    emit_event(out, &Event::Init { sys_freq, cpu_freq, ram_base, id_shift, ts_delta: 1 });
    emit_event(out, &Event::SystimeCycles { time: 1000, ts_delta: 3 });
    emit_event(out, &Event::NumModules { modules: 0, ts_delta: 4 });
    proof {
        assert(out@ =~= pre + bootstrap_bytes(sys_freq, cpu_freq, ram_base, id_shift));
    }
}

} // verus!
