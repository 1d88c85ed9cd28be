//! The viewer-facing event vocabulary and its binary encoding.
//!
//! Every record is one discriminant byte, the event's fields as varints (or
//! length-prefixed strings), and a trailing timestamp delta.  Discriminants
//! of twenty-four and above additionally carry a one-byte length directly
//! after the discriminant, counting the field bytes between that length byte
//! and the timestamp.

use vstd::prelude::*;

use crate::varint::{encode_u32, varint};
use crate::Error;

verus! {

/// Why a task stopped being ready.
#[derive(Debug, Clone, Copy, PartialEq, Eq, Structural)]
pub enum Cause {
    Idle,
    Sleep,
}

/// The single-byte payload standing for a cause on the wire.
pub open spec fn cause_code(c: Cause) -> u32 {
    match c {
        Cause::Idle => 0,
        Cause::Sleep => 1,
    }
}

/// One instant of the traced system's timeline, in the viewer's vocabulary.
/// `ts_delta` is the time elapsed since the previously encoded event, in
/// target clock ticks, and is always the last field on the wire.
#[derive(Debug, Clone, Copy)]
pub enum Event<'a> {
    Overflow { dropped_packets: u32, ts_delta: u32 },
    IsrEnter { isr: u8, ts_delta: u32 },
    IsrExit { ts_delta: u32 },
    TaskStartExec { task: u32, ts_delta: u32 },
    TaskStopExec { ts_delta: u32 },
    TaskStartReady { task: u32, ts_delta: u32 },
    TaskStopReady { task: u32, cause: Cause, ts_delta: u32 },
    TaskCreate { task: u32, ts_delta: u32 },
    TaskInfo { task: u32, prio: u32, name: &'a str, ts_delta: u32 },
    TraceStart { ts_delta: u32 },
    TraceStop { ts_delta: u32 },
    SystimeCycles { time: u32, ts_delta: u32 },
    SystimeUs { time: u64, ts_delta: u32 },
    UserStart { user_id: u32, ts_delta: u32 },
    UserStop { user_id: u32, ts_delta: u32 },
    Idle { ts_delta: u32 },
    IsrToScheduler { ts_delta: u32 },
    TimerEnter { timer_id: u32, ts_delta: u32 },
    TimerExit { ts_delta: u32 },
    StackInfo { task_id: u32, stack_base: u32, stack_size: u32, ts_delta: u32 },
    Init { sys_freq: u32, cpu_freq: u32, ram_base: u32, id_shift: u32, ts_delta: u32 },
    NameResource { resource_id: u32, name: &'a str, ts_delta: u32 },
    PrintFormatted { s: &'a str, ts_delta: u32 },
    NumModules { modules: u32, ts_delta: u32 },
    EndCall { event_id: u32, ts_delta: u32 },
    TaskTerminate { task_id: u32, ts_delta: u32 },
}

/// The wire discriminant of each variant.  `UserStart` and `Init` start new
/// blocks at fifteen and twenty-four, leaving the gaps the format reserves.
pub open spec fn event_disc(e: Event<'_>) -> u8 {
    match e {
        Event::Overflow { .. } => 1,
        Event::IsrEnter { .. } => 2,
        Event::IsrExit { .. } => 3,
        Event::TaskStartExec { .. } => 4,
        Event::TaskStopExec { .. } => 5,
        Event::TaskStartReady { .. } => 6,
        Event::TaskStopReady { .. } => 7,
        Event::TaskCreate { .. } => 8,
        Event::TaskInfo { .. } => 9,
        Event::TraceStart { .. } => 10,
        Event::TraceStop { .. } => 11,
        Event::SystimeCycles { .. } => 12,
        Event::SystimeUs { .. } => 13,
        Event::UserStart { .. } => 15,
        Event::UserStop { .. } => 16,
        Event::Idle { .. } => 17,
        Event::IsrToScheduler { .. } => 18,
        Event::TimerEnter { .. } => 19,
        Event::TimerExit { .. } => 20,
        Event::StackInfo { .. } => 21,
        Event::Init { .. } => 24,
        Event::NameResource { .. } => 25,
        Event::PrintFormatted { .. } => 26,
        Event::NumModules { .. } => 27,
        Event::EndCall { .. } => 28,
        Event::TaskTerminate { .. } => 29,
    }
}

/// The trailing timestamp delta of each variant.
pub open spec fn event_ts(e: Event<'_>) -> u32 {
    match e {
        Event::Overflow { ts_delta, .. } => ts_delta,
        Event::IsrEnter { ts_delta, .. } => ts_delta,
        Event::IsrExit { ts_delta } => ts_delta,
        Event::TaskStartExec { ts_delta, .. } => ts_delta,
        Event::TaskStopExec { ts_delta } => ts_delta,
        Event::TaskStartReady { ts_delta, .. } => ts_delta,
        Event::TaskStopReady { ts_delta, .. } => ts_delta,
        Event::TaskCreate { ts_delta, .. } => ts_delta,
        Event::TaskInfo { ts_delta, .. } => ts_delta,
        Event::TraceStart { ts_delta } => ts_delta,
        Event::TraceStop { ts_delta } => ts_delta,
        Event::SystimeCycles { ts_delta, .. } => ts_delta,
        Event::SystimeUs { ts_delta, .. } => ts_delta,
        Event::UserStart { ts_delta, .. } => ts_delta,
        Event::UserStop { ts_delta, .. } => ts_delta,
        Event::Idle { ts_delta } => ts_delta,
        Event::IsrToScheduler { ts_delta } => ts_delta,
        Event::TimerEnter { ts_delta, .. } => ts_delta,
        Event::TimerExit { ts_delta } => ts_delta,
        Event::StackInfo { ts_delta, .. } => ts_delta,
        Event::Init { ts_delta, .. } => ts_delta,
        Event::NameResource { ts_delta, .. } => ts_delta,
        Event::PrintFormatted { ts_delta, .. } => ts_delta,
        Event::NumModules { ts_delta, .. } => ts_delta,
        Event::EndCall { ts_delta, .. } => ts_delta,
        Event::TaskTerminate { ts_delta, .. } => ts_delta,
    }
}

/// A length-prefixed string field: the character count as a varint, then one
/// byte per character.
pub open spec fn str_field(s: Seq<char>) -> Seq<u8> {
    varint(s.len() as u32) + Seq::new(s.len(), |i: int| s[i] as u8)
}

/// The field bytes of an event: everything between the framing (discriminant
/// and optional length byte) and the trailing timestamp.
pub open spec fn fields_bytes(e: Event<'_>) -> Seq<u8> {
    match e {
        Event::Overflow { dropped_packets, .. } => varint(dropped_packets),
        Event::IsrEnter { isr, .. } => varint(isr as u32),
        Event::IsrExit { .. } => Seq::empty(),
        Event::TaskStartExec { task, .. } => varint(task),
        Event::TaskStopExec { .. } => Seq::empty(),
        Event::TaskStartReady { task, .. } => varint(task),
        Event::TaskStopReady { task, cause, .. } => varint(task) + varint(cause_code(cause)),
        Event::TaskCreate { task, .. } => varint(task),
        Event::TaskInfo { task, prio, name, .. } => varint(task) + varint(prio) + str_field(
            name@,
        ),
        Event::TraceStart { .. } => Seq::empty(),
        Event::TraceStop { .. } => Seq::empty(),
        Event::SystimeCycles { time, .. } => varint(time),
        Event::SystimeUs { time, .. } => varint((time % 0x1_0000_0000) as u32) + varint(
            (time / 0x1_0000_0000) as u32,
        ),
        Event::UserStart { user_id, .. } => varint(user_id),
        Event::UserStop { user_id, .. } => varint(user_id),
        Event::Idle { .. } => Seq::empty(),
        Event::IsrToScheduler { .. } => Seq::empty(),
        Event::TimerEnter { timer_id, .. } => varint(timer_id),
        Event::TimerExit { .. } => Seq::empty(),
        Event::StackInfo { task_id, stack_base, stack_size, .. } => varint(task_id) + varint(
            stack_base,
        ) + varint(stack_size),
        Event::Init { sys_freq, cpu_freq, ram_base, id_shift, .. } => varint(sys_freq) + varint(
            cpu_freq,
        ) + varint(ram_base) + varint(id_shift),
        Event::NameResource { resource_id, name, .. } => varint(resource_id) + str_field(name@),
        Event::PrintFormatted { s, .. } => str_field(s@),
        Event::NumModules { modules, .. } => varint(modules),
        Event::EndCall { event_id, .. } => varint(event_id),
        Event::TaskTerminate { task_id, .. } => varint(task_id),
    }
}

/// The complete wire bytes of an event: discriminant, a field-length byte
/// for extended discriminants, the field bytes, and the timestamp delta.
/// The length byte counts only the field bytes, never the timestamp.
pub open spec fn event_bytes(e: Event<'_>) -> Seq<u8> {
    if event_disc(e) >= 24 {
        seq![event_disc(e), fields_bytes(e).len() as u8] + fields_bytes(e) + varint(event_ts(e))
    } else {
        seq![event_disc(e)] + fields_bytes(e) + varint(event_ts(e))
    }
}

/// Constraints the caller owes the codec: strings are ASCII (anything wider
/// would corrupt field boundaries, one byte is emitted per character) and
/// short enough for their length prefix, and the fields of an extended event
/// fit its one-byte length.
pub open spec fn string_ok(s: Seq<char>) -> bool {
    vstd::utf8::is_ascii_chars(s) && s.len() < 0x1_0000_0000
}

pub open spec fn event_wf(e: Event<'_>) -> bool {
    &&& match e {
        Event::TaskInfo { name, .. } => string_ok(name@),
        Event::NameResource { name, .. } => string_ok(name@),
        Event::PrintFormatted { s, .. } => string_ok(s@),
        _ => true,
    }
    &&& event_disc(e) >= 24 ==> fields_bytes(e).len() <= 127
}

/// Write a length-prefixed string field into `buffer` at `count`: the
/// character count as a varint, then the characters' ASCII bytes.
pub fn encode_str(s: &str, buffer: &mut Vec<u8>, count: usize) -> (r: usize)
    requires
        string_ok(s@),
        count + str_field(s@).len() <= old(buffer)@.len(),
    ensures
        r == count + str_field(s@).len(),
        final(buffer)@.len() == old(buffer)@.len(),
        final(buffer)@.subrange(count as int, r as int) == str_field(s@),
        forall|i: int| 0 <= i < count ==> final(buffer)@[i] == old(buffer)@[i],
        forall|i: int| r <= i < final(buffer)@.len() ==> final(buffer)@[i] == old(buffer)@[i],
{
    proof {
        vstd::utf8::is_ascii_chars_encode_utf8(s@);
    }
    let bytes = s.as_bytes();
    let n = bytes.len();
    let buffer_len = buffer.len();
    let c0 = encode_u32(n as u32, buffer, count);
    let ghost mid = buffer@;
    let mut i: usize = 0;
    while i < n
        invariant
            n == s@.len() < 0x1_0000_0000,
            bytes@.len() == n,
            forall|k: int| 0 <= k < n ==> bytes@[k] == s@[k] as u8,
            i <= n,
            c0 + n <= buffer_len,
            buffer@.len() == buffer_len == mid.len(),
            forall|k: int| 0 <= k < c0 ==> buffer@[k] == mid[k],
            forall|k: int| 0 <= k < i ==> buffer@[c0 + k] == bytes@[k],
            forall|k: int| c0 + n <= k < buffer_len ==> buffer@[k] == mid[k],
        decreases n - i,
    {
        buffer[c0 + i] = bytes[i];
        i = i + 1;
    }
    proof {
        assert(final(buffer)@.subrange(count as int, (c0 + n) as int) =~= str_field(s@));
    }
    c0 + n
}

impl<'a> Event<'a> {
    /// The wire discriminant of this event, by explicit, exhaustive mapping.
    fn discriminant(&self) -> (d: u8)
        ensures
            d == event_disc(*self),
    {
        match self {
            Event::Overflow { .. } => 1,
            Event::IsrEnter { .. } => 2,
            Event::IsrExit { .. } => 3,
            Event::TaskStartExec { .. } => 4,
            Event::TaskStopExec { .. } => 5,
            Event::TaskStartReady { .. } => 6,
            Event::TaskStopReady { .. } => 7,
            Event::TaskCreate { .. } => 8,
            Event::TaskInfo { .. } => 9,
            Event::TraceStart { .. } => 10,
            Event::TraceStop { .. } => 11,
            Event::SystimeCycles { .. } => 12,
            Event::SystimeUs { .. } => 13,
            Event::UserStart { .. } => 15,
            Event::UserStop { .. } => 16,
            Event::Idle { .. } => 17,
            Event::IsrToScheduler { .. } => 18,
            Event::TimerEnter { .. } => 19,
            Event::TimerExit { .. } => 20,
            Event::StackInfo { .. } => 21,
            Event::Init { .. } => 24,
            Event::NameResource { .. } => 25,
            Event::PrintFormatted { .. } => 26,
            Event::NumModules { .. } => 27,
            Event::EndCall { .. } => 28,
            Event::TaskTerminate { .. } => 29,
        }
    }

    /// Encode this event into the front of `buffer`, which the caller has
    /// sized to hold it, and return the byte count.  The buffer beyond the
    /// record keeps its contents.
    pub fn encode(&self, buffer: &mut Vec<u8>) -> (r: Result<usize, Error>)
        requires
            event_wf(*self),
            event_bytes(*self).len() <= old(buffer)@.len(),
        ensures
            r matches Ok(n) && n == event_bytes(*self).len(),
            final(buffer)@.len() == old(buffer)@.len(),
            final(buffer)@.subrange(0, event_bytes(*self).len() as int) == event_bytes(*self),
            forall|i: int|
                event_bytes(*self).len() <= i < final(buffer)@.len() ==> final(buffer)@[i] == old(
                    buffer,
                )@[i],
    {
        proof {
            crate::varint::lemma_varint_len(event_ts(*self));
        }
        let buffer_len = buffer.len();
        let disc = self.discriminant();
        buffer[0] = disc;
        let mut start: usize = 1;
        if disc >= 24 {
            buffer[1] = 0;
            start = 2;
        }
        let ghost framed = buffer@;
        let (count, ts) = encode_fields(self, buffer, start);
        if disc >= 24 {
            buffer[1] = (count - 2) as u8;
        }
        let ghost patched = buffer@;
        let end = encode_u32(ts, buffer, count);
        proof {
            let n = event_bytes(*self).len() as int;
            assert(end == n);
            assert(final(buffer)@.subrange(0, n) =~= event_bytes(*self));
        }
        Ok(end)
    }
}

/// Write the field bytes of `e` into `buffer` at `count`; returns the index
/// just past them together with the event's timestamp delta.
fn encode_fields<'a>(e: &Event<'a>, buffer: &mut Vec<u8>, count: usize) -> (r: (usize, u32))
    requires
        event_wf(*e),
        1 <= count,
        count + fields_bytes(*e).len() <= old(buffer)@.len(),
    ensures
        r.0 == count + fields_bytes(*e).len(),
        r.1 == event_ts(*e),
        final(buffer)@.len() == old(buffer)@.len(),
        final(buffer)@.subrange(count as int, r.0 as int) == fields_bytes(*e),
        forall|i: int| 0 <= i < count ==> final(buffer)@[i] == old(buffer)@[i],
        forall|i: int| r.0 <= i < final(buffer)@.len() ==> final(buffer)@[i] == old(buffer)@[i],
{
    match e {
        Event::Overflow { dropped_packets, ts_delta } => {
            let c = encode_u32(*dropped_packets, buffer, count);
            (c, *ts_delta)
        },
        Event::IsrEnter { isr, ts_delta } => {
            let c = encode_u32(*isr as u32, buffer, count);
            (c, *ts_delta)
        },
        Event::IsrExit { ts_delta } => {
            proof {
                assert(buffer@.subrange(count as int, count as int) =~= fields_bytes(*e));
            }
            (count, *ts_delta)
        },
        Event::TaskStartExec { task, ts_delta } => {
            let c = encode_u32(*task, buffer, count);
            (c, *ts_delta)
        },
        Event::TaskStopExec { ts_delta } => {
            proof {
                assert(buffer@.subrange(count as int, count as int) =~= fields_bytes(*e));
            }
            (count, *ts_delta)
        },
        Event::TaskStartReady { task, ts_delta } => {
            let c = encode_u32(*task, buffer, count);
            (c, *ts_delta)
        },
        Event::TaskStopReady { task, cause, ts_delta } => {
            let code: u32 = match cause {
                Cause::Idle => 0,
                Cause::Sleep => 1,
            };
            let c1 = encode_u32(*task, buffer, count);
            let c2 = encode_u32(code, buffer, c1);
            proof {
                assert(final(buffer)@.subrange(count as int, c2 as int) =~= fields_bytes(*e));
            }
            (c2, *ts_delta)
        },
        Event::TaskCreate { task, ts_delta } => {
            let c = encode_u32(*task, buffer, count);
            (c, *ts_delta)
        },
        Event::TaskInfo { task, prio, name, ts_delta } => {
            let c1 = encode_u32(*task, buffer, count);
            let c2 = encode_u32(*prio, buffer, c1);
            let c3 = encode_str(name, buffer, c2);
            proof {
                assert(final(buffer)@.subrange(count as int, c3 as int) =~= fields_bytes(*e));
            }
            (c3, *ts_delta)
        },
        Event::TraceStart { ts_delta } => {
            proof {
                assert(buffer@.subrange(count as int, count as int) =~= fields_bytes(*e));
            }
            (count, *ts_delta)
        },
        Event::TraceStop { ts_delta } => {
            proof {
                assert(buffer@.subrange(count as int, count as int) =~= fields_bytes(*e));
            }
            (count, *ts_delta)
        },
        Event::SystimeCycles { time, ts_delta } => {
            let c = encode_u32(*time, buffer, count);
            (c, *ts_delta)
        },
        Event::SystimeUs { time, ts_delta } => {
            let lo = (*time % 0x1_0000_0000) as u32;
            let hi = (*time / 0x1_0000_0000) as u32;
            let c1 = encode_u32(lo, buffer, count);
            let c2 = encode_u32(hi, buffer, c1);
            proof {
                assert(final(buffer)@.subrange(count as int, c2 as int) =~= fields_bytes(*e));
            }
            (c2, *ts_delta)
        },
        Event::UserStart { user_id, ts_delta } => {
            let c = encode_u32(*user_id, buffer, count);
            (c, *ts_delta)
        },
        Event::UserStop { user_id, ts_delta } => {
            let c = encode_u32(*user_id, buffer, count);
            (c, *ts_delta)
        },
        Event::Idle { ts_delta } => {
            proof {
                assert(buffer@.subrange(count as int, count as int) =~= fields_bytes(*e));
            }
            (count, *ts_delta)
        },
        Event::IsrToScheduler { ts_delta } => {
            proof {
                assert(buffer@.subrange(count as int, count as int) =~= fields_bytes(*e));
            }
            (count, *ts_delta)
        },
        Event::TimerEnter { timer_id, ts_delta } => {
            let c = encode_u32(*timer_id, buffer, count);
            (c, *ts_delta)
        },
        Event::TimerExit { ts_delta } => {
            proof {
                assert(buffer@.subrange(count as int, count as int) =~= fields_bytes(*e));
            }
            (count, *ts_delta)
        },
        Event::StackInfo { task_id, stack_base, stack_size, ts_delta } => {
            let c1 = encode_u32(*task_id, buffer, count);
            let c2 = encode_u32(*stack_base, buffer, c1);
            let c3 = encode_u32(*stack_size, buffer, c2);
            proof {
                assert(final(buffer)@.subrange(count as int, c3 as int) =~= fields_bytes(*e));
            }
            (c3, *ts_delta)
        },
        Event::Init { sys_freq, cpu_freq, ram_base, id_shift, ts_delta } => {
            let c1 = encode_u32(*sys_freq, buffer, count);
            let c2 = encode_u32(*cpu_freq, buffer, c1);
            let c3 = encode_u32(*ram_base, buffer, c2);
            let c4 = encode_u32(*id_shift, buffer, c3);
            proof {
                assert(final(buffer)@.subrange(count as int, c4 as int) =~= fields_bytes(*e));
            }
            (c4, *ts_delta)
        },
        Event::NameResource { resource_id, name, ts_delta } => {
            let c1 = encode_u32(*resource_id, buffer, count);
            let c2 = encode_str(name, buffer, c1);
            proof {
                assert(final(buffer)@.subrange(count as int, c2 as int) =~= fields_bytes(*e));
            }
            (c2, *ts_delta)
        },
        Event::PrintFormatted { s, ts_delta } => {
            let c = encode_str(s, buffer, count);
            (c, *ts_delta)
        },
        Event::NumModules { modules, ts_delta } => {
            let c = encode_u32(*modules, buffer, count);
            (c, *ts_delta)
        },
        Event::EndCall { event_id, ts_delta } => {
            let c = encode_u32(*event_id, buffer, count);
            (c, *ts_delta)
        },
        Event::TaskTerminate { task_id, ts_delta } => {
            let c = encode_u32(*task_id, buffer, count);
            (c, *ts_delta)
        },
    }
}

/// Law: extended-event framing.  For every well-formed event with an
/// extended discriminant, the byte directly after the discriminant is the
/// length of exactly the field bytes: the timestamp delta that follows them
/// is appended uncounted.
pub proof fn lemma_extended_length_prefix(e: Event<'_>)
    requires
        event_wf(e),
        event_disc(e) >= 24,
    ensures
        event_bytes(e).len() == 2 + fields_bytes(e).len() + varint(event_ts(e)).len(),
        event_bytes(e)[0] == event_disc(e),
        event_bytes(e)[1] == fields_bytes(e).len() as u8,
        event_bytes(e).subrange(2, 2 + fields_bytes(e).len() as int) == fields_bytes(e),
        event_bytes(e).subrange(
            2 + fields_bytes(e).len() as int,
            event_bytes(e).len() as int,
        ) == varint(event_ts(e)),
{
    let w = event_bytes(e);
    let fields = fields_bytes(e);
    assert(w.subrange(2, 2 + fields.len() as int) =~= fields);
    assert(w.subrange(2 + fields.len() as int, w.len() as int) =~= varint(event_ts(e)));
}

/// Every command byte the host may send after the handshake.
#[derive(Debug, Clone, Copy, PartialEq, Eq, Structural)]
pub enum Command {
    Start,
    Stop,
    GetSysTime,
}

impl Command {
    /// Parse a host command byte: one starts the trace, two stops it, three
    /// asks for the system time; anything else is unknown.
    pub fn try_from(value: u8) -> (r: Result<Command, Error>)
        ensures
            value == 1 ==> r == Ok::<Command, Error>(Command::Start),
            value == 2 ==> r == Ok::<Command, Error>(Command::Stop),
            value == 3 ==> r == Ok::<Command, Error>(Command::GetSysTime),
            !(1 <= value <= 3) ==> r == Err::<Command, Error>(Error::UnknownCommand),
    {
        match value {
            1 => Ok(Command::Start),
            2 => Ok(Command::Stop),
            3 => Ok(Command::GetSysTime),
            _ => Err(Error::UnknownCommand),
        }
    }
}

} // verus!
