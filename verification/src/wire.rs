//! The compact wire format between the instrumented target and the host
//! bridge: one record per scheduler event, an opcode byte followed by the
//! event's varint fields and the varint timestamp delta, with no outer
//! framing.

use vstd::prelude::*;

use crate::varint::{read_varint, scan_u32, varint, VarintOutcome, VarintScan};
use crate::Error;

verus! {

/// The compact vocabulary shared by target and host bridge.  Every variant
/// carries its own timestamp delta as the last field.
#[derive(Debug, Clone, Copy, PartialEq, Eq, Structural)]
pub enum Message {
    Disconnect(u32),
    IsrEnter(u8, u32),
    IsrExit(u32),
    TaskNew(u32, u32),
    TaskExecBegin(u32, u32),
    TaskExecEnd(u32),
    TaskReadyBegin(u32, u32),
    TaskReadyEnd(u32, u32),
    SystemIdle(u32),
}

/// The six events the target actually puts on the compact wire.
#[derive(Debug, Clone, Copy, PartialEq, Eq, Structural)]
pub enum TargetEvent {
    TaskNew,
    TaskExecBegin,
    TaskExecEnd,
    TaskReadyBegin,
    TaskReadyEnd,
    SystemIdle,
}

/// The opcode byte of each compact event.
pub open spec fn target_opcode(e: TargetEvent) -> u8 {
    match e {
        TargetEvent::TaskNew => 1,
        TargetEvent::TaskExecBegin => 2,
        TargetEvent::TaskExecEnd => 3,
        TargetEvent::TaskReadyBegin => 4,
        TargetEvent::TaskReadyEnd => 5,
        TargetEvent::SystemIdle => 6,
    }
}

impl TargetEvent {
    /// The event a compact opcode stands for.  Only the six known opcodes
    /// are meaningful; an unknown byte must instead be rejected through
    /// [`decode_record`], which reports it as a malformed stream.
    pub fn from(value: u8) -> (r: Self)
        requires
            1 <= value <= 6,
        ensures
            target_opcode(r) == value,
    {
        match value {
            1 => TargetEvent::TaskNew,
            2 => TargetEvent::TaskExecBegin,
            3 => TargetEvent::TaskExecEnd,
            4 => TargetEvent::TaskReadyBegin,
            5 => TargetEvent::TaskReadyEnd,
            _ => TargetEvent::SystemIdle,
        }
    }
}

/// Whether a message travels on the compact wire.  `Disconnect` and the ISR
/// pair are session-level messages with no compact opcode.
pub open spec fn is_wire_message(m: Message) -> bool {
    match m {
        Message::TaskNew(..) => true,
        Message::TaskExecBegin(..) => true,
        Message::TaskExecEnd(..) => true,
        Message::TaskReadyBegin(..) => true,
        Message::TaskReadyEnd(..) => true,
        Message::SystemIdle(..) => true,
        _ => false,
    }
}

/// The compact record of a wire message: opcode, then the task identifier
/// where the event has one, then the timestamp delta.
pub open spec fn message_record(m: Message) -> Seq<u8> {
    match m {
        Message::TaskNew(task, ts) => seq![1u8] + varint(task) + varint(ts),
        Message::TaskExecBegin(task, ts) => seq![2u8] + varint(task) + varint(ts),
        Message::TaskExecEnd(ts) => seq![3u8] + varint(ts),
        Message::TaskReadyBegin(task, ts) => seq![4u8] + varint(task) + varint(ts),
        Message::TaskReadyEnd(task, ts) => seq![5u8] + varint(task) + varint(ts),
        Message::SystemIdle(ts) => seq![6u8] + varint(ts),
        _ => Seq::empty(),
    }
}

pub open spec fn one_field_message(op: u8, ts: u32) -> Message {
    if op == 3 {
        Message::TaskExecEnd(ts)
    } else {
        Message::SystemIdle(ts)
    }
}

pub open spec fn two_field_message(op: u8, task: u32, ts: u32) -> Message {
    if op == 1 {
        Message::TaskNew(task, ts)
    } else if op == 2 {
        Message::TaskExecBegin(task, ts)
    } else if op == 4 {
        Message::TaskReadyBegin(task, ts)
    } else {
        Message::TaskReadyEnd(task, ts)
    }
}

/// Result of scanning one compact record out of a byte stream.
pub enum RecordScan {
    /// A whole record stands at the position; `end` is the index past it.
    Parsed { msg: Message, end: int },
    /// The stream ends inside the record; more bytes may complete it.
    Truncated,
    /// The record can never be completed: an unknown opcode or an
    /// over-long varint.  The stream is out of sync.
    Malformed,
}

/// Scan one compact record at `pos`.
pub open spec fn record_at(s: Seq<u8>, pos: int) -> RecordScan {
    if !(0 <= pos < s.len()) {
        RecordScan::Truncated
    } else {
        let op = s[pos];
        if op == 3 || op == 6 {
            match scan_u32(s, pos + 1) {
                VarintScan::Complete { end, value } => RecordScan::Parsed {
                    msg: one_field_message(op, value as u32),
                    end,
                },
                VarintScan::Truncated => RecordScan::Truncated,
                VarintScan::Malformed => RecordScan::Malformed,
            }
        } else if 1 <= op <= 5 {
            match scan_u32(s, pos + 1) {
                VarintScan::Complete { end: mid, value: task } => match scan_u32(s, mid) {
                    VarintScan::Complete { end, value: ts } => RecordScan::Parsed {
                        msg: two_field_message(op, task as u32, ts as u32),
                        end,
                    },
                    VarintScan::Truncated => RecordScan::Truncated,
                    VarintScan::Malformed => RecordScan::Malformed,
                },
                VarintScan::Truncated => RecordScan::Truncated,
                VarintScan::Malformed => RecordScan::Malformed,
            }
        } else {
            RecordScan::Malformed
        }
    }
}

/// A parsed record consumes at least one byte and stays inside the stream.
pub proof fn lemma_record_at_bounds(s: Seq<u8>, pos: int)
    requires
        record_at(s, pos) is Parsed,
    ensures
        pos < record_at(s, pos)->end <= s.len(),
{
    let op = s[pos];
    if op == 3 || op == 6 {
        crate::varint::lemma_scan_u32_bounds(s, pos + 1);
    } else {
        crate::varint::lemma_scan_u32_bounds(s, pos + 1);
        let mid = scan_u32(s, pos + 1)->end;
        crate::varint::lemma_scan_u32_bounds(s, mid);
    }
}

/// Scan a stream of compact records from `pos`: the messages parsed in
/// order, the position reached, and whether the stream stayed well formed
/// (`false` the moment a malformed record is hit; a trailing partial
/// record is left unconsumed and is no fault).
pub open spec fn parse_stream(s: Seq<u8>, pos: int) -> (Seq<Message>, int, bool)
    decreases s.len() - pos,
    when 0 <= pos <= s.len()
    via parse_stream_termination
{
    match record_at(s, pos) {
        RecordScan::Parsed { msg, end } => {
            let rest = parse_stream(s, end);
            (seq![msg] + rest.0, rest.1, rest.2)
        },
        RecordScan::Truncated => (Seq::empty(), pos, true),
        RecordScan::Malformed => (Seq::empty(), pos, false),
    }
}

#[via_fn]
proof fn parse_stream_termination(s: Seq<u8>, pos: int) {
    if record_at(s, pos) is Parsed {
        lemma_record_at_bounds(s, pos);
    }
}

/// Outcome of decoding one compact record.
#[derive(Debug, Clone, Copy, PartialEq, Eq, Structural)]
pub enum RecordOutcome {
    /// One whole record: the message and the index just past it.
    Parsed { msg: Message, next: usize },
    /// The buffer ends inside the record; read more bytes and retry.
    Truncated,
    /// Unknown opcode or impossible varint: the stream is out of sync and
    /// the connection should be abandoned rather than resynchronized blindly.
    Malformed,
}

/// Decode one compact record at `pos`.
pub fn decode_record(buffer: &[u8], pos: usize) -> (r: RecordOutcome)
    ensures
        match record_at(buffer@, pos as int) {
            RecordScan::Parsed { msg, end } => r == (RecordOutcome::Parsed {
                msg,
                next: end as usize,
            }),
            RecordScan::Truncated => r == RecordOutcome::Truncated,
            RecordScan::Malformed => r == RecordOutcome::Malformed,
        },
{
    let buffer_len = buffer.len();
    if pos >= buffer_len {
        return RecordOutcome::Truncated;
    }
    let op = buffer[pos];
    if op == 3 || op == 6 {
        match read_varint(buffer, pos + 1) {
            VarintOutcome::Value { next, value } => {
                proof {
                    crate::varint::lemma_scan_u32_bounds(buffer@, pos as int + 1);
                }
                let msg = if op == 3 {
                    Message::TaskExecEnd(value)
                } else {
                    Message::SystemIdle(value)
                };
                RecordOutcome::Parsed { msg, next }
            },
            VarintOutcome::Truncated => RecordOutcome::Truncated,
            VarintOutcome::Malformed => RecordOutcome::Malformed,
        }
    } else if 1 <= op && op <= 5 {
        match read_varint(buffer, pos + 1) {
            VarintOutcome::Value { next: mid, value: task } => {
                proof {
                    crate::varint::lemma_scan_u32_bounds(buffer@, pos as int + 1);
                }
                match read_varint(buffer, mid) {
                    VarintOutcome::Value { next, value: ts } => {
                        proof {
                            crate::varint::lemma_scan_u32_bounds(buffer@, mid as int);
                        }
                        let msg = match op {
                            1 => Message::TaskNew(task, ts),
                            2 => Message::TaskExecBegin(task, ts),
                            4 => Message::TaskReadyBegin(task, ts),
                            _ => Message::TaskReadyEnd(task, ts),
                        };
                        RecordOutcome::Parsed { msg, next }
                    },
                    VarintOutcome::Truncated => RecordOutcome::Truncated,
                    VarintOutcome::Malformed => RecordOutcome::Malformed,
                }
            },
            VarintOutcome::Truncated => RecordOutcome::Truncated,
            VarintOutcome::Malformed => RecordOutcome::Malformed,
        }
    } else {
        RecordOutcome::Malformed
    }
}

/// Decode every whole compact record in `buffer`, in order.  Returns the
/// messages and the number of bytes consumed; a trailing partial record is
/// left for the caller to complete with the next read.  An unknown opcode
/// or impossible varint fails the whole call: such a stream is out of sync
/// and cannot be resumed by skipping bytes.
pub fn decode_records(buffer: &[u8]) -> (r: Result<(Vec<Message>, usize), Error>)
    ensures
        ({
            let parsed = parse_stream(buffer@, 0);
            if parsed.2 {
                r matches Ok(p) && p.0@ == parsed.0 && p.1 == parsed.1
            } else {
                r == Err::<(Vec<Message>, usize), Error>(Error::UnknownEvent)
            }
        }),
{
    let buffer_len = buffer.len();
    let mut msgs: Vec<Message> = Vec::new();
    let mut pos: usize = 0;
    loop
        invariant
            pos <= buffer_len == buffer@.len(),
            parse_stream(buffer@, 0).0 == msgs@ + parse_stream(buffer@, pos as int).0,
            parse_stream(buffer@, 0).1 == parse_stream(buffer@, pos as int).1,
            parse_stream(buffer@, 0).2 == parse_stream(buffer@, pos as int).2,
        decreases buffer@.len() - pos,
    {
        match decode_record(buffer, pos) {
            RecordOutcome::Parsed { msg, next } => {
                proof {
                    lemma_record_at_bounds(buffer@, pos as int);
                    let rest = parse_stream(buffer@, next as int);
                    assert(msgs@.push(msg) + rest.0 =~= msgs@ + (seq![msg] + rest.0));
                }
                msgs.push(msg);
                pos = next;
            },
            RecordOutcome::Truncated => {
                proof {
                    assert(msgs@ + parse_stream(buffer@, pos as int).0 =~= msgs@);
                }
                return Ok((msgs, pos));
            },
            RecordOutcome::Malformed => {
                return Err(Error::UnknownEvent);
            },
        }
    }
}

/// Inside a stream that carries `w` at `pos`, any aligned slice of `w`
/// stands at the corresponding offset.
proof fn lemma_nested_subrange(s: Seq<u8>, pos: int, w: Seq<u8>, a: int, b: int)
    requires
        0 <= pos,
        pos + w.len() <= s.len(),
        s.subrange(pos, pos + w.len()) == w,
        0 <= a <= b <= w.len(),
    ensures
        s.subrange(pos + a, pos + b) == w.subrange(a, b),
{
    assert forall|i: int| 0 <= i < b - a implies s.subrange(pos + a, pos + b)[i] == w.subrange(
        a,
        b,
    )[i] by {
        assert(s[pos + a + i] == s.subrange(pos, pos + w.len())[a + i]);
    }
    assert(s.subrange(pos + a, pos + b) =~= w.subrange(a, b));
}

/// The concatenated compact records of a message sequence, in order.
pub open spec fn records_bytes(msgs: Seq<Message>) -> Seq<u8>
    decreases msgs.len(),
{
    if msgs.len() == 0 {
        Seq::empty()
    } else {
        message_record(msgs.first()) + records_bytes(msgs.drop_first())
    }
}

/// Law: stream round trip.  A buffer holding exactly the records of a
/// sequence of wire messages, from `pos` to its end, parses back to exactly
/// those messages, in order, consuming the whole buffer, with no fault.
pub proof fn lemma_stream_round_trip(s: Seq<u8>, pos: int, msgs: Seq<Message>)
    requires
        forall|k: int| 0 <= k < msgs.len() ==> is_wire_message(#[trigger] msgs[k]),
        0 <= pos,
        pos + records_bytes(msgs).len() == s.len(),
        s.subrange(pos, s.len() as int) == records_bytes(msgs),
    ensures
        parse_stream(s, pos) == (msgs, s.len() as int, true),
    decreases msgs.len(),
{
    let rb = records_bytes(msgs);
    if msgs.len() == 0 {
        assert(msgs =~= Seq::<Message>::empty());
    } else {
        let m0 = msgs.first();
        let rest = msgs.drop_first();
        let l0 = message_record(m0).len() as int;
        assert(rb == message_record(m0) + records_bytes(rest));
        lemma_nested_subrange(s, pos, rb, 0, l0);
        assert(rb.subrange(0, l0) =~= message_record(m0));
        assert(is_wire_message(m0));
        lemma_record_round_trip(s, pos, m0);
        lemma_nested_subrange(s, pos, rb, l0, rb.len() as int);
        assert(rb.subrange(l0, rb.len() as int) =~= records_bytes(rest));
        assert(s.subrange(pos + l0, s.len() as int) == records_bytes(rest));
        lemma_stream_round_trip(s, pos + l0, rest);
        assert(seq![m0] + rest =~= msgs);
    }
}

/// Round trip: a stream carrying the record of a wire message parses back
/// to exactly that message, consuming exactly the record.
pub proof fn lemma_record_round_trip(s: Seq<u8>, pos: int, m: Message)
    requires
        is_wire_message(m),
        0 <= pos,
        pos + message_record(m).len() <= s.len(),
        s.subrange(pos, pos + message_record(m).len()) == message_record(m),
    ensures
        record_at(s, pos) == (RecordScan::Parsed { msg: m, end: pos + message_record(m).len() }),
{
    let w = message_record(m);
    assert(s[pos] == s.subrange(pos, pos + w.len())[0]);
    match m {
        Message::TaskExecEnd(ts) => {
            lemma_two_part_record(s, pos, 3, ts);
        },
        Message::SystemIdle(ts) => {
            lemma_two_part_record(s, pos, 6, ts);
        },
        Message::TaskNew(task, ts) => {
            lemma_three_part_record(s, pos, 1, task, ts);
        },
        Message::TaskExecBegin(task, ts) => {
            lemma_three_part_record(s, pos, 2, task, ts);
        },
        Message::TaskReadyBegin(task, ts) => {
            lemma_three_part_record(s, pos, 4, task, ts);
        },
        Message::TaskReadyEnd(task, ts) => {
            lemma_three_part_record(s, pos, 5, task, ts);
        },
        _ => {},
    }
}

proof fn lemma_two_part_record(s: Seq<u8>, pos: int, op: u8, ts: u32)
    requires
        0 <= pos,
        pos + 1 + varint(ts).len() <= s.len(),
        s.subrange(pos, pos + 1 + varint(ts).len()) == seq![op] + varint(ts),
    ensures
        s[pos] == op,
        scan_u32(s, pos + 1) == (VarintScan::Complete {
            end: pos + 1 + varint(ts).len(),
            value: ts as nat,
        }),
{
    let w = seq![op] + varint(ts);
    assert(s[pos] == s.subrange(pos, pos + w.len())[0]);
    lemma_nested_subrange(s, pos, w, 1, w.len() as int);
    assert(w.subrange(1, w.len() as int) =~= varint(ts));
    crate::varint::lemma_scan_of_varint(s, pos + 1, ts);
}

proof fn lemma_three_part_record(s: Seq<u8>, pos: int, op: u8, task: u32, ts: u32)
    requires
        0 <= pos,
        pos + 1 + varint(task).len() + varint(ts).len() <= s.len(),
        s.subrange(pos, pos + 1 + varint(task).len() + varint(ts).len()) == seq![op]
            + varint(task) + varint(ts),
    ensures
        s[pos] == op,
        scan_u32(s, pos + 1) == (VarintScan::Complete {
            end: pos + 1 + varint(task).len(),
            value: task as nat,
        }),
        scan_u32(s, pos + 1 + varint(task).len()) == (VarintScan::Complete {
            end: pos + 1 + varint(task).len() + varint(ts).len(),
            value: ts as nat,
        }),
{
    let w = seq![op] + varint(task) + varint(ts);
    let la = varint(task).len() as int;
    let lb = varint(ts).len() as int;
    assert(s[pos] == s.subrange(pos, pos + w.len())[0]);
    lemma_nested_subrange(s, pos, w, 1, 1 + la);
    assert(w.subrange(1, 1 + la) =~= varint(task));
    crate::varint::lemma_scan_of_varint(s, pos + 1, task);
    lemma_nested_subrange(s, pos, w, 1 + la, 1 + la + lb);
    assert(w.subrange(1 + la, 1 + la + lb) =~= varint(ts));
    crate::varint::lemma_scan_of_varint(s, pos + 1 + la, ts);
}

} // verus!
