//! The host-side bridge: one viewer session per accepted connection.
//!
//! The bridge decodes the target's compact records (see [`crate::wire`]),
//! re-encodes each as the corresponding viewer event, and tears the session
//! down the moment the host sends anything after the start command.  The
//! embedding owns the socket and the probe; it feeds received bytes in and
//! writes the queued bytes out.

use vstd::prelude::*;

use crate::packet::{event_bytes, Cause, Event};
use crate::session::{bootstrap_bytes, emit_event, lemma_event_fits};
use crate::wire::Message;
use crate::{SessionState, Transport};

verus! {

/// The system frequency the bridge reports in its bootstrap.
pub const SYS_FREQ: u32 = 16000000;

/// The CPU frequency the bridge reports in its bootstrap.
pub const CPU_FREQ: u32 = 160000000;

/// The RAM base address the bridge reports in its bootstrap.
pub const RAM_BASE: u32 = 0x4000_0000;

/// The identifier shift the bridge reports in its bootstrap.
pub const ID_SHIFT: u32 = 2;

/// The viewer event each bridged message turns into, carrying the message's
/// own timestamp delta.  A task that stops being ready is always reported
/// with cause `Idle`: the compact wire does not carry the cause.
pub open spec fn message_event(m: Message) -> Event<'static> {
    match m {
        Message::Disconnect(ts_delta) => Event::TraceStop { ts_delta },
        Message::IsrEnter(isr, ts_delta) => Event::IsrEnter { isr, ts_delta },
        Message::IsrExit(ts_delta) => Event::IsrExit { ts_delta },
        Message::TaskNew(task, ts_delta) => Event::TaskCreate { task, ts_delta },
        Message::TaskExecBegin(task, ts_delta) => Event::TaskStartExec { task, ts_delta },
        Message::TaskExecEnd(ts_delta) => Event::TaskStopExec { ts_delta },
        Message::TaskReadyBegin(task, ts_delta) => Event::TaskStartReady { task, ts_delta },
        Message::TaskReadyEnd(task, ts_delta) => Event::TaskStopReady {
            task,
            cause: Cause::Idle,
            ts_delta,
        },
        Message::SystemIdle(ts_delta) => Event::Idle { ts_delta },
    }
}

/// The bytes a sequence of forwarded messages adds to the stream, in order.
pub open spec fn forwarded_bytes(msgs: Seq<Message>) -> Seq<u8>
    decreases msgs.len(),
{
    if msgs.len() == 0 {
        Seq::empty()
    } else {
        forwarded_bytes(msgs.drop_last()) + event_bytes(message_event(msgs.last()))
    }
}

/// One viewer session driven by the host bridge.  Every byte owed to the
/// viewer socket is queued in `out`; `emitted()` is the whole stream the
/// session ever produced.
pub struct SystemViewTarget<T: Transport> {
    /// The framing policy.
    pub transport: T,
    /// Where the session stands.
    pub state: SessionState,
    /// Bytes queued for the socket and not yet taken by the embedding.
    pub out: Vec<u8>,
    /// Every byte already taken out of the queue.
    pub drained: Ghost<Seq<u8>>,
    /// Every message forwarded while in the forwarding state.
    pub forwarded: Ghost<Seq<Message>>,
}

impl<T: Transport> SystemViewTarget<T> {
    /// The whole byte stream this session has produced.
    pub open spec fn emitted(&self) -> Seq<u8> {
        self.drained@ + self.out@
    }

    /// The protocol invariant: the stream is fixed by the state — nothing
    /// before the handshake reply, the four bootstrap events directly
    /// after it, then exactly the forwarded messages' events.  The session
    /// closes by forwarding a disconnect, whose event is the trace stop.
    pub open spec fn wf(&self) -> bool {
        match self.state {
            SessionState::Handshaking => self.emitted() == Seq::<u8>::empty() && self.forwarded@
                == Seq::<Message>::empty(),
            SessionState::AwaitingStart => self.emitted() == self.transport.reply_spec()
                && self.forwarded@ == Seq::<Message>::empty(),
            SessionState::Forwarding => self.emitted() == self.transport.reply_spec()
                + bootstrap_bytes(SYS_FREQ, CPU_FREQ, RAM_BASE, ID_SHIFT) + forwarded_bytes(
                self.forwarded@,
            ),
            SessionState::Closed => self.emitted() == self.transport.reply_spec()
                + bootstrap_bytes(SYS_FREQ, CPU_FREQ, RAM_BASE, ID_SHIFT) + forwarded_bytes(
                self.forwarded@,
            ),
        }
    }

    /// A fresh session over the given transport policy.
    pub fn new(transport: T) -> (s: Self)
        ensures
            s.wf(),
            s.transport == transport,
            s.state == SessionState::Handshaking,
            s.out@ == Seq::<u8>::empty(),
    {
        let s = SystemViewTarget {
            transport,
            state: SessionState::Handshaking,
            out: Vec::new(),
            drained: Ghost(Seq::empty()),
            forwarded: Ghost(Seq::empty()),
        };
        proof {
            assert(s.emitted() =~= Seq::<u8>::empty());
        }
        s
    }

    /// Answer the host's HELLO.  The reply is the transport's fixed
    /// identification block; the HELLO content is discarded unread.
    pub fn on_hello(&mut self, hello: &[u8])
        requires
            old(self).wf(),
            old(self).state == SessionState::Handshaking,
        ensures
            final(self).wf(),
            final(self).state == SessionState::AwaitingStart,
            final(self).transport == old(self).transport,
            final(self).emitted() == old(self).transport.reply_spec(),
    {
        let mut reply = self.transport.hello_reply(hello);
        self.out.append(&mut reply);
        self.state = SessionState::AwaitingStart;
        proof {
            assert(old(self).emitted().len() == 0);
            assert(old(self).drained@.len() == 0);
            assert(self.emitted() =~= self.transport.reply_spec());
        }
    }

    /// The start command arrived (its payload is not validated): queue the
    /// four bootstrap events in their fixed order and begin forwarding.
    pub fn on_start(&mut self)
        requires
            old(self).wf(),
            old(self).state == SessionState::AwaitingStart,
        ensures
            final(self).wf(),
            final(self).state == SessionState::Forwarding,
            final(self).transport == old(self).transport,
            final(self).forwarded@ == Seq::<Message>::empty(),
            final(self).emitted() == old(self).emitted() + bootstrap_bytes(
                SYS_FREQ,
                CPU_FREQ,
                RAM_BASE,
                ID_SHIFT,
            ),
    {
        crate::session::push_bootstrap(&mut self.out, SYS_FREQ, CPU_FREQ, RAM_BASE, ID_SHIFT);
        self.state = SessionState::Forwarding;
        proof {
            let boot = bootstrap_bytes(SYS_FREQ, CPU_FREQ, RAM_BASE, ID_SHIFT);
            assert(self.emitted() =~= old(self).emitted() + boot);
            assert(forwarded_bytes(self.forwarded@) =~= Seq::<u8>::empty());
            assert(self.emitted() =~= self.transport.reply_spec() + boot + forwarded_bytes(
                self.forwarded@,
            ));
        }
    }

    /// Forward one bridged message: queue the corresponding viewer event,
    /// carrying the message's own timestamp delta.  Forwarding a
    /// `Disconnect` queues its trace-stop record and closes the session.
    pub fn send(&mut self, msg: Message)
        requires
            old(self).wf(),
            old(self).state == SessionState::Forwarding,
        ensures
            final(self).wf(),
            final(self).state == (if msg is Disconnect {
                SessionState::Closed
            } else {
                SessionState::Forwarding
            }),
            final(self).transport == old(self).transport,
            final(self).forwarded@ == old(self).forwarded@.push(msg),
            final(self).emitted() == old(self).emitted() + event_bytes(message_event(msg)),
    {
        let e: Event<'static> = match msg {
            Message::Disconnect(ts_delta) => Event::TraceStop { ts_delta },
            Message::IsrEnter(isr, ts_delta) => Event::IsrEnter { isr, ts_delta },
            Message::IsrExit(ts_delta) => Event::IsrExit { ts_delta },
            Message::TaskNew(task, ts_delta) => Event::TaskCreate { task, ts_delta },
            Message::TaskExecBegin(task, ts_delta) => Event::TaskStartExec { task, ts_delta },
            Message::TaskExecEnd(ts_delta) => Event::TaskStopExec { ts_delta },
            Message::TaskReadyBegin(task, ts_delta) => Event::TaskStartReady { task, ts_delta },
            Message::TaskReadyEnd(task, ts_delta) => Event::TaskStopReady {
                task,
                cause: Cause::Idle,
                ts_delta,
            },
            Message::SystemIdle(ts_delta) => Event::Idle { ts_delta },
        };
        proof {
            assert(e == message_event(msg));
            lemma_event_fits(e);
        }
        emit_event(&mut self.out, &e);
        if let Message::Disconnect(_) = msg {
            self.state = SessionState::Closed;
        }
        proof {
            let fs = old(self).forwarded@;
            assert(fs.push(msg).drop_last() =~= fs);
        }
        self.forwarded = Ghost(self.forwarded@.push(msg));
        proof {
            assert(self.emitted() =~= old(self).emitted() + event_bytes(message_event(msg)));
            assert(self.emitted() =~= self.transport.reply_spec() + bootstrap_bytes(
                SYS_FREQ,
                CPU_FREQ,
                RAM_BASE,
                ID_SHIFT,
            ) + forwarded_bytes(self.forwarded@));
        }
    }

    /// Look at what the host connection delivered.  Any complete command
    /// frame is read as a disconnect request, handled exactly like an
    /// explicit disconnect message: the trace-stop record is queued, the
    /// session closes, and `true` comes back.
    pub fn process_incoming(&mut self, incoming: &[u8]) -> (done: bool)
        requires
            old(self).wf(),
            old(self).state == SessionState::Forwarding,
        ensures
            final(self).wf(),
            final(self).transport == old(self).transport,
            done <==> incoming@.len() >= old(self).transport.prefix_spec(),
            done ==> final(self).state == SessionState::Closed && final(self).forwarded@ == old(
                self,
            ).forwarded@.push(Message::Disconnect(0)) && final(self).emitted() == old(
                self,
            ).emitted() + event_bytes(Event::TraceStop { ts_delta: 0 }),
            !done ==> *final(self) == *old(self),
    {
        match self.transport.skip_command_len(incoming) {
            Some(_) => {
                self.send(Message::Disconnect(0));
                true
            },
            None => false,
        }
    }

    /// Take every queued byte for the embedding to write to the socket.
    pub fn take_output(&mut self) -> (r: Vec<u8>)
        requires
            old(self).wf(),
        ensures
            final(self).wf(),
            r@ == old(self).out@,
            final(self).out@ == Seq::<u8>::empty(),
            final(self).state == old(self).state,
            final(self).transport == old(self).transport,
            final(self).forwarded == old(self).forwarded,
            final(self).emitted() == old(self).emitted(),
    {
        let mut taken: Vec<u8> = Vec::new();
        core::mem::swap(&mut taken, &mut self.out);
        self.drained = Ghost(self.drained@ + taken@);
        proof {
            assert(self.emitted() =~= old(self).emitted());
        }
        taken
    }
}

/// Law: the handshake is idempotent.  Any two bridge sessions over equal
/// transport policies that have answered a HELLO — whatever bytes each
/// host sent — have produced identical streams.
pub proof fn lemma_handshake_idempotence<T: Transport>(
    a: &SystemViewTarget<T>,
    b: &SystemViewTarget<T>,
)
    requires
        a.wf(),
        b.wf(),
        a.transport == b.transport,
        a.state == SessionState::AwaitingStart,
        b.state == SessionState::AwaitingStart,
    ensures
        a.emitted() == b.emitted(),
{
}

/// Law: once a bridge session forwards (or has closed), the four bootstrap
/// events stand in its stream exactly once, directly after the handshake
/// reply and before any forwarded event, in the fixed order trace start,
/// target description, time base, module table.
pub proof fn lemma_bootstrap_order<T: Transport>(s: &SystemViewTarget<T>)
    requires
        s.wf(),
        s.state == SessionState::Forwarding || s.state == SessionState::Closed,
    ensures
        ({
            let reply = s.transport.reply_spec();
            let boot = bootstrap_bytes(SYS_FREQ, CPU_FREQ, RAM_BASE, ID_SHIFT);
            &&& reply.len() + boot.len() <= s.emitted().len()
            &&& s.emitted().subrange(0, reply.len() as int) == reply
            &&& s.emitted().subrange(reply.len() as int, (reply.len() + boot.len()) as int)
                == boot
            &&& boot == event_bytes(Event::TraceStart { ts_delta: 0 }) + event_bytes(
                Event::Init {
                    sys_freq: SYS_FREQ,
                    cpu_freq: CPU_FREQ,
                    ram_base: RAM_BASE,
                    id_shift: ID_SHIFT,
                    ts_delta: 1,
                },
            ) + event_bytes(Event::SystimeCycles { time: 1000, ts_delta: 3 }) + event_bytes(
                Event::NumModules { modules: 0, ts_delta: 4 },
            )
        }),
{
    let reply = s.transport.reply_spec();
    let boot = bootstrap_bytes(SYS_FREQ, CPU_FREQ, RAM_BASE, ID_SHIFT);
    assert(s.emitted().subrange(0, reply.len() as int) =~= reply);
    assert(s.emitted().subrange(reply.len() as int, (reply.len() + boot.len()) as int) =~= boot);
}

/// The character a chip name's character normalizes to: ASCII upper case
/// folds to lower case, everything else stands.
pub open spec fn normalized_char(c: char) -> char {
    if 'A' <= c && c <= 'Z' {
        ((c as u8) + 32) as char
    } else {
        c
    }
}

/// A chip name with its dashes removed and its ASCII letters lowered.
pub open spec fn normalize_spec(s: Seq<char>) -> Seq<char>
    decreases s.len(),
{
    if s.len() == 0 {
        Seq::empty()
    } else {
        let rest = normalize_spec(s.drop_last());
        if s.last() == '-' {
            rest
        } else {
            rest.push(normalized_char(s.last()))
        }
    }
}

/// Relies on String::from_utf8: bytes below 0x80 are valid UTF-8 and decode
/// to one character per byte, with the same code.
#[verifier::external_body]
fn ascii_to_string(bytes: Vec<u8>) -> (r: String)
    requires
        forall|i: int| 0 <= i < bytes@.len() ==> bytes@[i] < 0x80,
    ensures
        r@.len() == bytes@.len(),
        forall|i: int| 0 <= i < bytes@.len() ==> r@[i] == bytes@[i] as char,
{
    String::from_utf8(bytes).unwrap_or_default()
}

/// Fold a chip name to the probe registry's shape: drop dashes, lower the
/// case.  Chip names are plain ASCII.
pub fn normalize(chip_name: &str) -> (r: String)
    requires
        vstd::utf8::is_ascii_chars(chip_name@),
    ensures
        r@ == normalize_spec(chip_name@),
{
    proof {
        vstd::utf8::is_ascii_chars_encode_utf8(chip_name@);
    }
    let bytes = chip_name.as_bytes();
    let n = bytes.len();
    let mut acc: Vec<u8> = Vec::new();
    let mut i: usize = 0;
    while i < n
        invariant
            i <= n,
            n == chip_name@.len(),
            bytes@.len() == n,
            vstd::utf8::is_ascii_chars(chip_name@),
            forall|k: int| 0 <= k < n ==> bytes@[k] == chip_name@[k] as u8,
            acc@.len() == normalize_spec(chip_name@.take(i as int)).len(),
            forall|k: int| 0 <= k < acc@.len() ==> acc@[k] < 0x80,
            forall|k: int|
                0 <= k < acc@.len() ==> acc@[k] as char == normalize_spec(
                    chip_name@.take(i as int),
                )[k],
        decreases n - i,
    {
        let ghost pre = normalize_spec(chip_name@.take(i as int));
        proof {
            assert(chip_name@.take(i + 1).drop_last() =~= chip_name@.take(i as int));
            assert(chip_name@.take(i + 1).last() == chip_name@[i as int]);
            assert('\0' <= chip_name@[i as int] <= '\u{7f}');
        }
        let b = bytes[i];
        if b == 45 {
            proof {
                assert(chip_name@[i as int] == '-');
            }
        } else {
            let folded: u8 = if 65 <= b && b <= 90 {
                b + 32
            } else {
                b
            };
            acc.push(folded);
            proof {
                let c = chip_name@[i as int];
                assert(c != '-');
                assert(folded as char == normalized_char(c));
                assert(normalize_spec(chip_name@.take(i + 1)) =~= pre.push(normalized_char(c)));
            }
        }
        i = i + 1;
    }
    proof {
        assert(chip_name@.take(n as int) =~= chip_name@);
    }
    let r = ascii_to_string(acc);
    proof {
        assert(r@ =~= normalize_spec(chip_name@));
    }
    r
}

} // verus!
