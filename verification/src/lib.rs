//! Scheduler-trace codec and session protocol for a SystemView-style viewer.
//!
//! The crate covers both ends of the trace pipeline: the compact wire format
//! that an instrumented scheduler emits (opcode plus varint fields), and the
//! viewer-facing session protocol (handshake, bootstrap events, event
//! forwarding).  All encoding, decoding and protocol decisions live here;
//! sockets, debug probes and timers stay with the embedding application,
//! which moves bytes between this crate's queues and the outside world.
//!
//! This file holds the target-resident session: a small state machine that a
//! cooperative executor drives, racing locally produced [`Message`]s against
//! host input that is read as a disconnect request.

use vstd::prelude::*;

pub mod bridge;
pub mod clock;
pub mod packet;
pub mod session;
pub mod sink;
pub mod tracer;
pub mod varint;
pub mod wire;

use crate::packet::{event_bytes, Event};
use crate::session::{bootstrap_bytes, emit_event, hello_reply_bytes, lemma_event_fits,
    push_bootstrap, push_hello_reply};

verus! {

/// Faults surfaced by the protocol layer.
#[derive(Debug, Clone, Copy, PartialEq, Eq, Structural)]
pub enum Error {
    /// A command byte from the host was none of the known commands.
    UnknownCommand,
    /// An opcode on the compact wire was none of the known events.
    UnknownEvent,
}

/// Where a session stands between construction and teardown.
#[derive(Debug, Clone, Copy, PartialEq, Eq, Structural)]
pub enum SessionState {
    /// Waiting for the host's HELLO block.
    Handshaking,
    /// HELLO answered; waiting for the first command frame.
    AwaitingStart,
    /// Bootstrap sent; forwarding application events.
    Forwarding,
    /// Torn down; the trace-stop record has been queued.
    Closed,
}

/// A transport policy: how a session frames its handshake reply and the
/// host's command frames on one kind of byte stream.
pub trait Transport: Sized {
    /// The one reply this policy ever sends to a HELLO.  That it is a
    /// function of the policy alone — never of the received bytes — is the
    /// handshake's idempotence: every host hears the same identification.
    spec fn reply_spec(&self) -> Seq<u8>;

    /// How many length-prefix bytes precede a host command's payload.
    spec fn prefix_spec(&self) -> nat;

    /// Build the reply to the host's HELLO.  The HELLO bytes are accepted
    /// unconditionally; nothing of them reaches the reply.
    fn hello_reply(&self, hello: &[u8]) -> (r: Vec<u8>)
        ensures
            r@ == self.reply_spec(),
    ;

    /// Where a host command's payload starts inside `incoming`, if its
    /// length prefix has arrived in full.
    fn skip_command_len(&self, incoming: &[u8]) -> (r: Option<usize>)
        ensures
            r is Some <==> incoming@.len() >= self.prefix_spec(),
            r matches Some(n) ==> n == self.prefix_spec(),
    ;
}

/// The TCP framing: a fixed identification reply and a one-byte command
/// length prefix.
#[derive(Debug, Clone, Copy, PartialEq, Eq, Structural)]
pub struct TcpTransport {}

impl Transport for TcpTransport {
    open spec fn reply_spec(&self) -> Seq<u8> {
        hello_reply_bytes()
    }

    open spec fn prefix_spec(&self) -> nat {
        1
    }

    fn hello_reply(&self, hello: &[u8]) -> (r: Vec<u8>) {
        let mut reply: Vec<u8> = Vec::new();
        push_hello_reply(&mut reply);
        proof {
            assert(reply@ =~= hello_reply_bytes());
        }
        reply
    }

    fn skip_command_len(&self, incoming: &[u8]) -> (r: Option<usize>) {
        if incoming.len() >= 1 {
            Some(1)
        } else {
            None
        }
    }
}

impl Default for TcpTransport {
    fn default() -> (r: Self)
        ensures
            r == (TcpTransport {  }),
    {
        TcpTransport {  }
    }
}

/// What the instrumented target itself reports to its local session.  Each
/// message carries its own locally-computed timestamp delta, the ticks
/// elapsed since the previously reported event.
#[derive(Debug, Clone, Copy, PartialEq, Eq, Structural)]
pub enum Message {
    /// Tear the session down.
    Disconnect(u32),
    /// An interrupt service routine was entered.
    IsrEnter(u8, u32),
    /// The interrupt service routine returned.
    IsrExit(u32),
}

/// The system frequency the target session reports in its bootstrap.
pub const SYS_FREQ: u32 = 80000;

/// The CPU frequency the target session reports in its bootstrap.
pub const CPU_FREQ: u32 = 160000;

/// The RAM base address the target session reports in its bootstrap.
pub const RAM_BASE: u32 = 0x4000_0000;

/// The identifier shift the target session reports in its bootstrap.
pub const ID_SHIFT: u32 = 2;

/// The viewer event a target message turns into, carrying the message's
/// own timestamp delta.
pub open spec fn message_event(m: Message) -> Event<'static> {
    match m {
        Message::IsrEnter(isr, ts_delta) => Event::IsrEnter { isr, ts_delta },
        Message::IsrExit(ts_delta) => Event::IsrExit { ts_delta },
        Message::Disconnect(ts_delta) => Event::TraceStop { ts_delta },
    }
}

/// The bytes a sequence of handled messages adds to the stream, in order.
pub open spec fn handled_bytes(msgs: Seq<Message>) -> Seq<u8>
    decreases msgs.len(),
{
    if msgs.len() == 0 {
        Seq::empty()
    } else {
        handled_bytes(msgs.drop_last()) + event_bytes(message_event(msgs.last()))
    }
}

/// One viewer session run on the target itself.  The embedding performs the
/// reads, writes and the race between message source and host input; every
/// byte it must write is queued in `out` here, and `emitted()` is the whole
/// stream this session ever produced.
pub struct SystemViewTarget<T: Transport> {
    /// The framing policy.
    pub transport: T,
    /// Where the session stands.
    pub state: SessionState,
    /// Bytes queued for the stream and not yet taken by the embedding.
    pub out: Vec<u8>,
    /// Every byte already taken out of the queue.
    pub drained: Ghost<Seq<u8>>,
    /// Every message handled while forwarding.
    pub handled: Ghost<Seq<Message>>,
}

impl<T: Transport> SystemViewTarget<T> {
    /// The whole byte stream this session has produced.
    pub open spec fn emitted(&self) -> Seq<u8> {
        self.drained@ + self.out@
    }

    /// The protocol invariant: what stands in the stream is fixed by the
    /// state — nothing before the handshake reply, the four bootstrap
    /// events directly after it, then exactly the handled messages' events.
    pub open spec fn wf(&self) -> bool {
        match self.state {
            SessionState::Handshaking => self.emitted() == Seq::<u8>::empty() && self.handled@
                == Seq::<Message>::empty(),
            SessionState::AwaitingStart => self.emitted() == self.transport.reply_spec()
                && self.handled@ == Seq::<Message>::empty(),
            SessionState::Forwarding => self.emitted() == self.transport.reply_spec()
                + bootstrap_bytes(SYS_FREQ, CPU_FREQ, RAM_BASE, ID_SHIFT) + handled_bytes(
                self.handled@,
            ),
            SessionState::Closed => self.emitted() == self.transport.reply_spec()
                + bootstrap_bytes(SYS_FREQ, CPU_FREQ, RAM_BASE, ID_SHIFT) + handled_bytes(
                self.handled@,
            ),
        }
    }

    /// A fresh session over the given transport policy.
    pub fn new(transport: T) -> (s: Self)
        ensures
            s.wf(),
            s.transport == transport,
            s.state == SessionState::Handshaking,
            s.out@ == Seq::<u8>::empty(),
    {
        let s = SystemViewTarget {
            transport,
            state: SessionState::Handshaking,
            out: Vec::new(),
            drained: Ghost(Seq::empty()),
            handled: Ghost(Seq::empty()),
        };
        proof {
            assert(s.emitted() =~= Seq::<u8>::empty());
        }
        s
    }

    /// Answer the host's HELLO.  The reply is the transport's fixed
    /// identification block; the HELLO content is discarded unread.
    pub fn on_hello(&mut self, hello: &[u8])
        requires
            old(self).wf(),
            old(self).state == SessionState::Handshaking,
        ensures
            final(self).wf(),
            final(self).state == SessionState::AwaitingStart,
            final(self).transport == old(self).transport,
            final(self).emitted() == old(self).transport.reply_spec(),
    {
        let mut reply = self.transport.hello_reply(hello);
        self.out.append(&mut reply);
        self.state = SessionState::AwaitingStart;
        proof {
            assert(old(self).emitted().len() == 0);
            assert(old(self).drained@.len() == 0);
            assert(self.emitted() =~= self.transport.reply_spec());
        }
    }

    /// The first command frame arrived; whatever it held, start the trace:
    /// queue the four bootstrap events in their fixed order and begin
    /// forwarding.
    pub fn on_start(&mut self)
        requires
            old(self).wf(),
            old(self).state == SessionState::AwaitingStart,
        ensures
            final(self).wf(),
            final(self).state == SessionState::Forwarding,
            final(self).transport == old(self).transport,
            final(self).handled@ == Seq::<Message>::empty(),
            final(self).emitted() == old(self).emitted() + bootstrap_bytes(
                SYS_FREQ,
                CPU_FREQ,
                RAM_BASE,
                ID_SHIFT,
            ),
    {
        push_bootstrap(&mut self.out, SYS_FREQ, CPU_FREQ, RAM_BASE, ID_SHIFT);
        self.state = SessionState::Forwarding;
        proof {
            let boot = bootstrap_bytes(SYS_FREQ, CPU_FREQ, RAM_BASE, ID_SHIFT);
            assert(self.emitted() =~= old(self).emitted() + boot);
            assert(handled_bytes(self.handled@) =~= Seq::<u8>::empty());
            assert(self.emitted() =~= self.transport.reply_spec() + boot + handled_bytes(
                self.handled@,
            ));
        }
    }

    /// Handle whichever the embedding's race resolved first: a locally
    /// produced message, or host input (which arrives here already turned
    /// into `Message::Disconnect`).  Each message's event carries that
    /// message's own delta.  Returns whether the session is over.
    pub fn on_message(&mut self, msg: Message) -> (done: bool)
        requires
            old(self).wf(),
            old(self).state == SessionState::Forwarding,
        ensures
            final(self).wf(),
            final(self).transport == old(self).transport,
            final(self).handled@ == old(self).handled@.push(msg),
            final(self).emitted() == old(self).emitted() + event_bytes(message_event(msg)),
            done <==> msg is Disconnect,
            final(self).state == (if msg is Disconnect {
                SessionState::Closed
            } else {
                SessionState::Forwarding
            }),
    {
        let done = match msg {
            Message::IsrEnter(isr, ts_delta) => {
                proof {
                    lemma_event_fits(Event::IsrEnter { isr, ts_delta });
                }
                emit_event(&mut self.out, &Event::IsrEnter { isr, ts_delta });
                false
            },
            Message::IsrExit(ts_delta) => {
                proof {
                    lemma_event_fits(Event::IsrExit { ts_delta });
                }
                emit_event(&mut self.out, &Event::IsrExit { ts_delta });
                false
            },
            Message::Disconnect(ts_delta) => {
                proof {
                    lemma_event_fits(Event::TraceStop { ts_delta });
                }
                emit_event(&mut self.out, &Event::TraceStop { ts_delta });
                self.state = SessionState::Closed;
                true
            },
        };
        proof {
            let hs = old(self).handled@;
            assert(hs.push(msg).drop_last() =~= hs);
        }
        self.handled = Ghost(self.handled@.push(msg));
        proof {
            assert(self.emitted() =~= old(self).emitted() + event_bytes(message_event(msg)));
            assert(self.emitted() =~= self.transport.reply_spec() + bootstrap_bytes(
                SYS_FREQ,
                CPU_FREQ,
                RAM_BASE,
                ID_SHIFT,
            ) + handled_bytes(self.handled@));
        }
        done
    }

    /// Take every queued byte for the embedding to write to the stream.
    pub fn take_output(&mut self) -> (r: Vec<u8>)
        requires
            old(self).wf(),
        ensures
            final(self).wf(),
            r@ == old(self).out@,
            final(self).out@ == Seq::<u8>::empty(),
            final(self).state == old(self).state,
            final(self).transport == old(self).transport,
            final(self).handled == old(self).handled,
            final(self).emitted() == old(self).emitted(),
    {
        let mut taken: Vec<u8> = Vec::new();
        core::mem::swap(&mut taken, &mut self.out);
        self.drained = Ghost(self.drained@ + taken@);
        proof {
            assert(self.emitted() =~= old(self).emitted());
        }
        taken
    }
}

/// Law: the handshake is idempotent.  Any two sessions over equal transport
/// policies that have answered a HELLO — whatever bytes each host sent —
/// have produced identical streams.
pub proof fn lemma_handshake_idempotence<T: Transport>(
    a: &SystemViewTarget<T>,
    b: &SystemViewTarget<T>,
)
    requires
        a.wf(),
        b.wf(),
        a.transport == b.transport,
        a.state == SessionState::AwaitingStart,
        b.state == SessionState::AwaitingStart,
    ensures
        a.emitted() == b.emitted(),
{
}

/// Law: once a session forwards (or has closed), the four bootstrap events
/// stand in its stream exactly once, directly after the handshake reply and
/// before any forwarded event, in the fixed order trace start, target
/// description, time base, module table.
pub proof fn lemma_bootstrap_order<T: Transport>(s: &SystemViewTarget<T>)
    requires
        s.wf(),
        s.state == SessionState::Forwarding || s.state == SessionState::Closed,
    ensures
        ({
            let reply = s.transport.reply_spec();
            let boot = bootstrap_bytes(SYS_FREQ, CPU_FREQ, RAM_BASE, ID_SHIFT);
            &&& reply.len() + boot.len() <= s.emitted().len()
            &&& s.emitted().subrange(0, reply.len() as int) == reply
            &&& s.emitted().subrange(reply.len() as int, (reply.len() + boot.len()) as int)
                == boot
            &&& boot == event_bytes(Event::TraceStart { ts_delta: 0 }) + event_bytes(
                Event::Init {
                    sys_freq: SYS_FREQ,
                    cpu_freq: CPU_FREQ,
                    ram_base: RAM_BASE,
                    id_shift: ID_SHIFT,
                    ts_delta: 1,
                },
            ) + event_bytes(Event::SystimeCycles { time: 1000, ts_delta: 3 }) + event_bytes(
                Event::NumModules { modules: 0, ts_delta: 4 },
            )
        }),
{
    let reply = s.transport.reply_spec();
    let boot = bootstrap_bytes(SYS_FREQ, CPU_FREQ, RAM_BASE, ID_SHIFT);
    assert(s.emitted().subrange(0, reply.len() as int) =~= reply);
    assert(s.emitted().subrange(reply.len() as int, (reply.len() + boot.len()) as int) =~= boot);
}

} // verus!
