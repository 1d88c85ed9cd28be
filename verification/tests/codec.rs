//! Byte-exact checks of the varint codec and the event encoder.

use esp_xray::packet::{Cause, Command, Event};
use esp_xray::varint::{decode_u32, encode_u32, read_varint, VarintOutcome};
use esp_xray::Error;

#[test]
fn test_encode_500() {
    let mut buffer = vec![0u8; 10];
    let count = encode_u32(500, &mut buffer, 0);
    assert_eq!(&[0xf4, 0x03], &buffer[..count]);
}

#[test]
fn test_encode_0x7000() {
    let mut buffer = vec![0u8; 10];
    let count = encode_u32(0x7000, &mut buffer, 0);
    assert_eq!(&[0x80, 0xE0, 0x01], &buffer[..count]);
}

#[test]
fn test_encode_overflow() {
    let mut buffer = vec![0u8; 10];
    let count = Event::Overflow { dropped_packets: 0x10, ts_delta: 0x50 }
        .encode(&mut buffer)
        .unwrap();
    assert_eq!(&[0x01, 0x10, 0x50], &buffer[..count]);
}

#[test]
fn test_encode_isr_enter() {
    let mut buffer = vec![0u8; 10];
    let count = Event::IsrEnter { isr: 15, ts_delta: 80 }.encode(&mut buffer).unwrap();
    assert_eq!(&[0x02, 0x0f, 0x50], &buffer[..count]);
}

#[test]
fn test_encode_init() {
    let mut buffer = vec![0u8; 10];
    let count = Event::Init { sys_freq: 1, cpu_freq: 2, ram_base: 3, id_shift: 4, ts_delta: 80 }
        .encode(&mut buffer)
        .unwrap();
    assert_eq!(&[0x18, 0x04, 0x01, 0x02, 0x03, 0x04, 0x50], &buffer[..count]);
}

#[test]
fn test_varint_round_trip() {
    let samples: [(u32, usize); 13] = [
        (0, 1),
        (1, 1),
        (0x7f, 1),
        (0x80, 2),
        (500, 2),
        (0x3fff, 2),
        (0x4000, 3),
        (0x7000, 3),
        (0x1f_ffff, 3),
        (0x20_0000, 4),
        (0xfff_ffff, 4),
        (0x1000_0000, 5),
        (u32::MAX, 5),
    ];
    for (value, expected_len) in samples {
        let mut buffer = vec![0u8; 10];
        let count = encode_u32(value, &mut buffer, 0);
        assert_eq!(count, expected_len, "length of varint for {value}");
        let (next, decoded) = decode_u32(&buffer[..count], 0);
        assert_eq!(next, count);
        assert_eq!(decoded, value);
    }
}

#[test]
fn test_decode_500() {
    let buffer = [0xf4u8, 0x03];
    let (next, value) = decode_u32(&buffer, 0);
    assert_eq!(next, 2);
    assert_eq!(value, 500);
}

#[test]
fn test_read_varint_truncated() {
    assert_eq!(read_varint(&[], 0), VarintOutcome::Truncated);
    assert_eq!(read_varint(&[0x80], 0), VarintOutcome::Truncated);
    assert_eq!(read_varint(&[0x80, 0x80, 0x80, 0x80], 0), VarintOutcome::Truncated);
}

#[test]
fn test_read_varint_malformed() {
    // A fifth byte that still continues can never fit a `u32`.
    assert_eq!(read_varint(&[0x80, 0x80, 0x80, 0x80, 0x80, 0x01], 0), VarintOutcome::Malformed);
    // A fifth byte with more than four data bits overflows a `u32`.
    assert_eq!(read_varint(&[0xff, 0xff, 0xff, 0xff, 0x7f], 0), VarintOutcome::Malformed);
    // The largest value that does fit.
    assert_eq!(
        read_varint(&[0xff, 0xff, 0xff, 0xff, 0x0f], 0),
        VarintOutcome::Value { next: 5, value: u32::MAX }
    );
}

#[test]
fn test_encode_name_resource() {
    // Extended discriminant with a string field: the length byte covers the
    // resource id and the length-prefixed name, never the timestamp.
    let mut buffer = vec![0u8; 32];
    let count = Event::NameResource { resource_id: 1, name: "ab", ts_delta: 5 }
        .encode(&mut buffer)
        .unwrap();
    assert_eq!(&[0x19, 0x04, 0x01, 0x02, 0x61, 0x62, 0x05], &buffer[..count]);
}

#[test]
fn test_encode_task_info() {
    let mut buffer = vec![0u8; 32];
    let count = Event::TaskInfo { task: 3, prio: 1, name: "A", ts_delta: 2 }
        .encode(&mut buffer)
        .unwrap();
    assert_eq!(&[0x09, 0x03, 0x01, 0x01, 0x41, 0x02], &buffer[..count]);
}

#[test]
fn test_encode_systime_us() {
    let mut buffer = vec![0u8; 32];
    let count = Event::SystimeUs { time: 0x1_0000_0002, ts_delta: 0 }
        .encode(&mut buffer)
        .unwrap();
    assert_eq!(&[0x0d, 0x02, 0x01, 0x00], &buffer[..count]);
}

#[test]
fn test_encode_task_stop_ready() {
    let mut buffer = vec![0u8; 32];
    let count = Event::TaskStopReady { task: 2, cause: Cause::Sleep, ts_delta: 1 }
        .encode(&mut buffer)
        .unwrap();
    assert_eq!(&[0x07, 0x02, 0x01, 0x01], &buffer[..count]);
}

#[test]
fn test_command_try_from() {
    assert_eq!(Command::try_from(1), Ok(Command::Start));
    assert_eq!(Command::try_from(2), Ok(Command::Stop));
    assert_eq!(Command::try_from(3), Ok(Command::GetSysTime));
    assert_eq!(Command::try_from(0), Err(Error::UnknownCommand));
    assert_eq!(Command::try_from(4), Err(Error::UnknownCommand));
    assert_eq!(Command::try_from(255), Err(Error::UnknownCommand));
}
