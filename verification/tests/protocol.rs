//! End-to-end checks: clock deltas, the skip-on-full sink, the tracer
//! hooks, the compact-record decoder and both session state machines.

use esp_xray::clock::TimestampClock;
use esp_xray::packet::Event;
use esp_xray::sink::TraceSink;
use esp_xray::tracer::Tracer;
use esp_xray::wire::{decode_record, decode_records, Message, RecordOutcome, TargetEvent};
use esp_xray::{bridge, Error, SessionState, TcpTransport};

/// The identification-plus-sync block every session sends for its handshake.
fn expected_hello_reply() -> Vec<u8> {
    let mut reply = b"SEGGER SystemView V3.00.00\0".to_vec();
    reply.extend_from_slice(&[0u8; 5]);
    reply.extend_from_slice(&[0u8; 10]);
    reply
}

fn encoded(event: Event<'_>) -> Vec<u8> {
    let mut buffer = vec![0u8; 32];
    let count = event.encode(&mut buffer).unwrap();
    buffer.truncate(count);
    buffer
}

#[test]
fn test_timestamp_delta_first_is_zero() {
    let mut clock = TimestampClock::new();
    assert_eq!(clock.sample_and_delta(1234), 0);
    assert_eq!(clock.sample_and_delta(1250), 16);
    assert_eq!(clock.sample_and_delta(1250), 0);
}

#[test]
fn test_timestamp_delta_wraparound() {
    let mut clock = TimestampClock::new();
    assert_eq!(clock.sample_and_delta(0xffff_fff0), 0);
    assert_eq!(clock.sample_and_delta(0x10), 0x20);
}

#[test]
fn test_sink_skip_on_full() {
    let mut sink = TraceSink::new(4);
    assert!(sink.post(&[1, 2, 3]));
    // Two more bytes do not fit: the record is dropped whole and the
    // buffered bytes stay exactly as they were.
    assert!(!sink.post(&[4, 5]));
    let kept = sink.drain();
    assert_eq!(kept, vec![1, 2, 3]);
    assert!(sink.post(&[4, 5]));
    assert_eq!(sink.drain(), vec![4, 5]);
    assert_eq!(sink.drain(), Vec::<u8>::new());
}

#[test]
fn test_hooks_emit_compact_records() {
    let mut tracer = Tracer::new(64);
    tracer.task_new(7, 100);
    tracer.system_idle(150);
    assert_eq!(tracer.sink.drain(), vec![1, 7, 0, 6, 50]);
    tracer.task_exec_begin(300, 151);
    tracer.task_ready_end(300, 153);
    tracer.task_exec_end(154);
    tracer.task_ready_begin(2, 155);
    assert_eq!(
        tracer.sink.drain(),
        vec![2, 0xac, 0x02, 1, 5, 0xac, 0x02, 2, 3, 1, 4, 2, 1]
    );
}

#[test]
fn test_hook_skip_on_full() {
    let mut tracer = Tracer::new(2);
    tracer.task_new(7, 100);
    assert_eq!(tracer.sink.drain(), Vec::<u8>::new());
}

#[test]
fn test_target_event_from() {
    assert_eq!(TargetEvent::from(1), TargetEvent::TaskNew);
    assert_eq!(TargetEvent::from(2), TargetEvent::TaskExecBegin);
    assert_eq!(TargetEvent::from(3), TargetEvent::TaskExecEnd);
    assert_eq!(TargetEvent::from(4), TargetEvent::TaskReadyBegin);
    assert_eq!(TargetEvent::from(5), TargetEvent::TaskReadyEnd);
    assert_eq!(TargetEvent::from(6), TargetEvent::SystemIdle);
}

#[test]
fn test_decode_records_whole() {
    let (msgs, used) = decode_records(&[1, 7, 0, 6, 50]).unwrap();
    assert_eq!(msgs, vec![Message::TaskNew(7, 0), Message::SystemIdle(50)]);
    assert_eq!(used, 5);
}

#[test]
fn test_decode_records_partial_tail() {
    // A record split across reads is left unconsumed, not misread.
    let (msgs, used) = decode_records(&[1, 7, 0, 6]).unwrap();
    assert_eq!(msgs, vec![Message::TaskNew(7, 0)]);
    assert_eq!(used, 3);
    let (msgs, used) = decode_records(&[1, 7]).unwrap();
    assert_eq!(msgs, Vec::<Message>::new());
    assert_eq!(used, 0);
}

#[test]
fn test_decode_records_unknown_opcode() {
    assert_eq!(decode_records(&[9, 1]), Err(Error::UnknownEvent));
    assert_eq!(decode_records(&[1, 7, 0, 0]), Err(Error::UnknownEvent));
}

#[test]
fn test_decode_record_single() {
    assert_eq!(
        decode_record(&[5, 3, 9], 0),
        RecordOutcome::Parsed { msg: Message::TaskReadyEnd(3, 9), next: 3 }
    );
    assert_eq!(decode_record(&[3], 0), RecordOutcome::Truncated);
    assert_eq!(decode_record(&[0], 0), RecordOutcome::Malformed);
}

#[test]
fn test_handshake_reply_fixed() {
    // Whatever HELLO the host sends, the reply is the same fixed block.
    let mut a = bridge::SystemViewTarget::new(TcpTransport::default());
    let mut b = bridge::SystemViewTarget::new(TcpTransport::default());
    a.on_hello(&[0u8; 48]);
    b.on_hello(&[1, 2, 3]);
    let reply_a = a.take_output();
    let reply_b = b.take_output();
    assert_eq!(reply_a, reply_b);
    assert_eq!(reply_a, expected_hello_reply());
}

#[test]
fn test_bridge_bootstrap_order() {
    let mut session = bridge::SystemViewTarget::new(TcpTransport::default());
    session.on_hello(&[0u8; 48]);
    session.take_output();
    session.on_start();
    let mut expected = Vec::new();
    expected.extend(encoded(Event::TraceStart { ts_delta: 0 }));
    expected.extend(encoded(Event::Init {
        sys_freq: 16000000,
        cpu_freq: 160000000,
        ram_base: 0x4000_0000,
        id_shift: 2,
        ts_delta: 1,
    }));
    expected.extend(encoded(Event::SystimeCycles { time: 1000, ts_delta: 3 }));
    expected.extend(encoded(Event::NumModules { modules: 0, ts_delta: 4 }));
    assert_eq!(session.take_output(), expected);
    assert_eq!(session.state, SessionState::Forwarding);
}

#[test]
fn test_end_to_end_task_new_then_idle() {
    // Producer side: two scheduler hooks fire.
    let mut tracer = Tracer::new(64);
    tracer.task_new(7, 500);
    tracer.system_idle(800);
    let raw = tracer.sink.drain();

    // Host side: the compact records come back as typed messages.
    let (msgs, used) = decode_records(&raw).unwrap();
    assert_eq!(used, raw.len());
    assert_eq!(msgs, vec![Message::TaskNew(7, 0), Message::SystemIdle(300)]);

    // Session side: each message is re-encoded as its viewer event,
    // byte-identical to encoding that event directly.
    let mut session = bridge::SystemViewTarget::new(TcpTransport::default());
    session.on_hello(&[0u8; 48]);
    session.on_start();
    session.take_output();
    for msg in msgs {
        session.send(msg);
    }
    let mut expected = Vec::new();
    expected.extend(encoded(Event::TaskCreate { task: 7, ts_delta: 0 }));
    expected.extend(encoded(Event::Idle { ts_delta: 300 }));
    assert_eq!(session.take_output(), expected);
}

#[test]
fn test_bridge_process_incoming() {
    let mut session = bridge::SystemViewTarget::new(TcpTransport::default());
    session.on_hello(&[0u8; 48]);
    session.on_start();
    session.take_output();
    // Nothing from the host: the session keeps forwarding.
    assert!(!session.process_incoming(&[]));
    assert_eq!(session.take_output(), Vec::<u8>::new());
    assert_eq!(session.state, SessionState::Forwarding);
    // Any complete frame is a disconnect request.
    assert!(session.process_incoming(&[2]));
    assert_eq!(session.take_output(), encoded(Event::TraceStop { ts_delta: 0 }));
    assert_eq!(session.state, SessionState::Closed);
}

#[test]
fn test_bridge_send_disconnect() {
    let mut session = bridge::SystemViewTarget::new(TcpTransport::default());
    session.on_hello(&[0u8; 48]);
    session.on_start();
    session.take_output();
    session.send(Message::Disconnect(9));
    assert_eq!(session.take_output(), encoded(Event::TraceStop { ts_delta: 9 }));
    assert_eq!(session.state, SessionState::Closed);
}

#[test]
fn test_target_session_run() {
    let mut session = esp_xray::SystemViewTarget::new(TcpTransport::default());
    session.on_hello(&[7u8; 48]);
    assert_eq!(session.take_output(), expected_hello_reply());
    session.on_start();
    let mut expected = Vec::new();
    expected.extend(encoded(Event::TraceStart { ts_delta: 0 }));
    expected.extend(encoded(Event::Init {
        sys_freq: 80000,
        cpu_freq: 160000,
        ram_base: 0x4000_0000,
        id_shift: 2,
        ts_delta: 1,
    }));
    expected.extend(encoded(Event::SystimeCycles { time: 1000, ts_delta: 3 }));
    expected.extend(encoded(Event::NumModules { modules: 0, ts_delta: 4 }));
    assert_eq!(session.take_output(), expected);

    assert!(!session.on_message(esp_xray::Message::IsrEnter(3, 21)));
    assert!(!session.on_message(esp_xray::Message::IsrExit(7)));
    assert!(session.on_message(esp_xray::Message::Disconnect(100)));
    let mut expected = Vec::new();
    expected.extend(encoded(Event::IsrEnter { isr: 3, ts_delta: 21 }));
    expected.extend(encoded(Event::IsrExit { ts_delta: 7 }));
    expected.extend(encoded(Event::TraceStop { ts_delta: 100 }));
    assert_eq!(session.take_output(), expected);
    assert_eq!(session.state, SessionState::Closed);
}

#[test]
fn test_normalize() {
    assert_eq!(bridge::normalize("ESP32-S3"), "esp32s3");
    assert_eq!(bridge::normalize("esp32c6"), "esp32c6");
    assert_eq!(bridge::normalize(""), "");
    assert_eq!(bridge::normalize("--"), "");
}
