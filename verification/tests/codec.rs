use hawkeye::codec::{decode_buffer, decode_event, encode_event, DecodeError, EVENT_WIRE_SIZE};
use hawkeye::event::{Event, EventType};

fn all_event_types() -> Vec<EventType> {
    vec![
        EventType::clock_gettime,
        EventType::fsync,
        EventType::fdatasync,
        EventType::down_killable,
        EventType::down_read_killable,
        EventType::down_write_killable,
        EventType::posix_fadvise,
    ]
}

#[test]
fn wire_layout_is_fixed_and_little_endian() {
    let ev = Event { pid: 0x01020304, elapsed_ns: 0x1112131415161718, event_type: EventType::fsync };
    let bytes = encode_event(&ev);
    assert_eq!(bytes.len(), EVENT_WIRE_SIZE);
    assert_eq!(
        bytes,
        vec![
            0x04, 0x03, 0x02, 0x01, // task id
            0x18, 0x17, 0x16, 0x15, 0x14, 0x13, 0x12, 0x11, // elapsed ns
            0x01, 0x00, 0x00, 0x00, // call id (fsync = 1)
        ]
    );
}

#[test]
fn round_trip_all_call_ids() {
    for event_type in all_event_types() {
        let ev = Event { pid: 12345, elapsed_ns: 987654321, event_type };
        let bytes = encode_event(&ev);
        assert_eq!(decode_event(&bytes), Ok(ev));
    }
}

#[test]
fn round_trip_extreme_field_values() {
    let ev = Event { pid: 0xFFFFFFFF, elapsed_ns: 0, event_type: EventType::posix_fadvise };
    let bytes = encode_event(&ev);
    assert_eq!(decode_event(&bytes), Ok(ev));

    let ev = Event { pid: 0, elapsed_ns: u64::MAX, event_type: EventType::clock_gettime };
    let bytes = encode_event(&ev);
    assert_eq!(decode_event(&bytes), Ok(ev));
}

#[test]
fn truncated_record_is_rejected() {
    let ev = Event { pid: 1, elapsed_ns: 2, event_type: EventType::fsync };
    let mut bytes = encode_event(&ev);
    bytes.pop();
    assert_eq!(decode_event(&bytes), Err(DecodeError::Truncated));
    assert_eq!(decode_event(&Vec::new()), Err(DecodeError::Truncated));
}

#[test]
fn unknown_call_id_is_rejected() {
    let ev = Event { pid: 1, elapsed_ns: 2, event_type: EventType::fsync };
    let mut bytes = encode_event(&ev);
    bytes[12] = 7; // smallest code outside the closed set
    assert_eq!(decode_event(&bytes), Err(DecodeError::UnknownCallId));
}

#[test]
fn empty_buffer_decodes_to_no_records() {
    assert_eq!(decode_buffer(&Vec::new()), Ok(Vec::new()));
}

#[test]
fn buffer_decodes_records_in_order() {
    let a = Event { pid: 1, elapsed_ns: 10, event_type: EventType::fsync };
    let b = Event { pid: 2, elapsed_ns: 20, event_type: EventType::down_write_killable };
    let mut buf = encode_event(&a);
    buf.extend_from_slice(&encode_event(&b));
    assert_eq!(decode_buffer(&buf), Ok(vec![a, b]));
}

#[test]
fn malformed_buffer_is_skipped_whole() {
    let a = Event { pid: 1, elapsed_ns: 10, event_type: EventType::fsync };
    let mut buf = encode_event(&a);
    buf.push(0xAB);
    assert_eq!(decode_buffer(&buf), Err(DecodeError::Truncated));

    let mut buf2 = encode_event(&a);
    buf2.extend_from_slice(&encode_event(&a));
    buf2[28] = 0xFF; // second record's call id is unknown
    assert_eq!(decode_buffer(&buf2), Err(DecodeError::UnknownCallId));
}

#[test]
fn call_id_encodings_are_stable() {
    let expected: Vec<u32> = vec![0, 1, 2, 3, 4, 5, 6];
    let got: Vec<u32> = all_event_types().into_iter().map(u32::from).collect();
    assert_eq!(got, expected);
    for (code, event_type) in (0u32..7).zip(all_event_types()) {
        assert_eq!(EventType::decode(code), Some(event_type));
    }
    assert_eq!(EventType::decode(7), None);
    assert_eq!(EventType::decode(u32::MAX), None);
}
