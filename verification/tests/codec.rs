use telemetry_bridge::error::{EncodeError, FrameError};
use telemetry_bridge::models::{MessageKind, MessageWrapper};
use telemetry_bridge::payload::{decode_payload, encode_payload, Field, FieldValue, Payload};

fn text(number: u32, value: &str) -> Field {
    Field { number, value: FieldValue::Bytes(value.as_bytes().to_vec()) }
}

fn heartbeat(node_id: &str, status: &str, uptime_sec: u64) -> Payload {
    Payload {
        fields: vec![
            text(2, node_id),
            text(3, status),
            Field { number: 4, value: FieldValue::Varint(uptime_sec) },
        ],
    }
}

fn bytes_of(field: &Field) -> Vec<u8> {
    match &field.value {
        FieldValue::Bytes(b) => b.clone(),
        other => panic!("not a length-delimited field: {:?}", other),
    }
}

#[test]
fn test_round_trip_heartbeat() {
    let msg = heartbeat("test_node", "OK", 100);
    let wrapper = MessageWrapper::Heartbeat(msg.clone());

    let bytes = wrapper.to_bytes().expect("Failed to encode");
    assert_eq!(bytes[0], MessageWrapper::ID_HEARTBEAT);

    let decoded = MessageWrapper::from_bytes(&bytes).expect("Failed to decode");

    if let MessageWrapper::Heartbeat(decoded_msg) = decoded {
        assert_eq!(bytes_of(&decoded_msg.fields[0]), bytes_of(&msg.fields[0]));
        assert_eq!(bytes_of(&decoded_msg.fields[1]), bytes_of(&msg.fields[1]));
        assert!(matches!(decoded_msg.fields[2].value, FieldValue::Varint(100)));
    } else {
        panic!("Wrong message type decoded");
    }
}

#[test]
fn test_round_trip_sensor_batch() {
    let reading = Payload {
        fields: vec![
            text(1, "s1"),
            Field { number: 3, value: FieldValue::Fixed64(12.34f64.to_bits()) },
        ],
    };
    let msg = Payload {
        fields: vec![Field {
            number: 2,
            value: FieldValue::Bytes(encode_payload(&reading).expect("Failed to encode")),
        }],
    };
    let wrapper = MessageWrapper::SensorBatch(msg.clone());

    let bytes = wrapper.to_bytes().expect("Failed to encode");
    assert_eq!(bytes[0], MessageWrapper::ID_SENSOR_BATCH);

    let decoded = MessageWrapper::from_bytes(&bytes).expect("Failed to decode");

    if let MessageWrapper::SensorBatch(decoded_msg) = decoded {
        assert_eq!(decoded_msg.fields.len(), 1);
        let first = decode_payload(&bytes_of(&decoded_msg.fields[0])).expect("Failed to decode");
        assert_eq!(bytes_of(&first.fields[0]), b"s1".to_vec());
        match first.fields[1].value {
            FieldValue::Fixed64(bits) => assert_eq!(f64::from_bits(bits), 12.34),
            _ => panic!("Wrong field type decoded"),
        }
    } else {
        panic!("Wrong message type decoded");
    }
}

#[test]
fn test_empty_buffer() {
    let bytes: Vec<u8> = vec![];
    let result = MessageWrapper::from_bytes(&bytes);
    assert!(result.is_err());
    assert!(result.unwrap_err().to_string().contains("Buffer is empty"));
}

#[test]
fn test_unknown_id() {
    let bytes: Vec<u8> = vec![255, 1, 2, 3];
    let result = MessageWrapper::from_bytes(&bytes);
    assert!(result.is_err());
    assert!(result.unwrap_err().to_string().contains("Unknown message ID"));
}

#[test]
fn test_malformed_payload() {
    let bytes: Vec<u8> = vec![MessageWrapper::ID_SENSOR_BATCH, 0xFF, 0xFF];
    let result = MessageWrapper::from_bytes(&bytes);
    let _ = result;
}

#[test]
fn heartbeat_frame_has_the_expected_bytes() {
    let wrapper = MessageWrapper::Heartbeat(heartbeat("n", "OK", 300));
    let bytes = wrapper.to_bytes().unwrap();
    assert_eq!(
        bytes,
        vec![11, 0x12, 1, b'n', 0x1A, 2, b'O', b'K', 0x20, 0xAC, 0x02]
    );
}

#[test]
fn unknown_tags_are_reported_with_the_tag() {
    assert!(matches!(MessageWrapper::from_bytes(&[0, 8, 1]), Err(FrameError::UnknownKind(0))));
    assert!(matches!(MessageWrapper::from_bytes(&[13]), Err(FrameError::UnknownKind(13))));
    assert!(matches!(MessageWrapper::from_bytes(&[]), Err(FrameError::EmptyFrame)));
}

#[test]
fn truncated_varint_is_malformed() {
    let result = MessageWrapper::from_bytes(&[1, 0xFF, 0xFF]);
    assert!(matches!(result, Err(FrameError::MalformedPayload)));
}

#[test]
fn invalid_field_number_is_refused() {
    let wrapper = MessageWrapper::Ack(Payload {
        fields: vec![
            Field { number: 1, value: FieldValue::Varint(7) },
            Field { number: 0, value: FieldValue::Varint(7) },
        ],
    });
    assert_eq!(
        wrapper.to_bytes(),
        Err(EncodeError::InvalidFieldNumber { index: 1, number: 0 })
    );
}

#[test]
fn every_kind_keeps_its_tag() {
    let kinds = [
        MessageKind::SensorBatch,
        MessageKind::SystemStatus,
        MessageKind::HardwareStatus,
        MessageKind::ClockModulation,
        MessageKind::TestCase,
        MessageKind::SimulationState,
        MessageKind::TestResult,
        MessageKind::TimeSync,
        MessageKind::FaultInjection,
        MessageKind::ActuatorCommand,
        MessageKind::Heartbeat,
        MessageKind::Ack,
    ];
    for (i, kind) in kinds.iter().enumerate() {
        assert_eq!(kind.tag() as usize, i + 1);
        assert_eq!(MessageKind::from_tag(kind.tag()), Some(*kind));
        let frame = MessageWrapper::new(*kind, Payload { fields: vec![] }).to_bytes().unwrap();
        assert_eq!(frame, vec![kind.tag()]);
        let back = MessageWrapper::from_bytes(&frame).unwrap();
        assert_eq!(back.kind(), *kind);
        assert!(back.payload().fields.is_empty());
    }
}

#[test]
fn multi_byte_varints_are_read_back() {
    let frame = vec![11, 0x20, 0xAC, 0x02];
    let decoded = MessageWrapper::from_bytes(&frame).unwrap();
    assert_eq!(decoded.kind(), MessageKind::Heartbeat);
    assert_eq!(decoded.payload().fields.len(), 1);
    assert_eq!(decoded.payload().fields[0].number, 4);
    assert!(matches!(decoded.payload().fields[0].value, FieldValue::Varint(300)));
}

#[test]
fn largest_varint_takes_ten_bytes() {
    let payload = Payload { fields: vec![Field { number: 1, value: FieldValue::Varint(u64::MAX) }] };
    let bytes = encode_payload(&payload).unwrap();
    assert_eq!(bytes, vec![0x08, 0xFF, 0xFF, 0xFF, 0xFF, 0xFF, 0xFF, 0xFF, 0xFF, 0xFF, 0x01]);
    let back = decode_payload(&bytes).unwrap();
    assert!(matches!(back.fields[0].value, FieldValue::Varint(u64::MAX)));
}

#[test]
fn varint_that_overflows_is_malformed() {
    let tenth_too_large = [0x08, 0xFF, 0xFF, 0xFF, 0xFF, 0xFF, 0xFF, 0xFF, 0xFF, 0xFF, 0x02];
    assert_eq!(decode_payload(&tenth_too_large).unwrap_err(), FrameError::MalformedPayload);
    let eleven = [0x08, 0x80, 0x80, 0x80, 0x80, 0x80, 0x80, 0x80, 0x80, 0x80, 0x80, 0x00];
    assert_eq!(decode_payload(&eleven).unwrap_err(), FrameError::MalformedPayload);
}

#[test]
fn padded_varint_is_accepted() {
    let back = decode_payload(&[0x08, 0x80, 0x00]).unwrap();
    assert_eq!(back.fields.len(), 1);
    assert_eq!(back.fields[0].number, 1);
    assert!(matches!(back.fields[0].value, FieldValue::Varint(0)));
}

#[test]
fn fixed_width_values_are_little_endian() {
    let payload = Payload {
        fields: vec![
            Field { number: 1, value: FieldValue::Fixed64(0x0102_0304_0506_0708) },
            Field { number: 2, value: FieldValue::Fixed32(0x0A0B_0C0D) },
        ],
    };
    let bytes = encode_payload(&payload).unwrap();
    assert_eq!(
        bytes,
        vec![0x09, 8, 7, 6, 5, 4, 3, 2, 1, 0x15, 0x0D, 0x0C, 0x0B, 0x0A]
    );
    let back = decode_payload(&bytes).unwrap();
    assert!(matches!(back.fields[0].value, FieldValue::Fixed64(0x0102_0304_0506_0708)));
    assert!(matches!(back.fields[1].value, FieldValue::Fixed32(0x0A0B_0C0D)));
}

#[test]
fn truncated_values_are_malformed() {
    assert_eq!(decode_payload(&[0x09, 1, 2, 3]).unwrap_err(), FrameError::MalformedPayload);
    assert_eq!(decode_payload(&[0x15, 1, 2, 3]).unwrap_err(), FrameError::MalformedPayload);
    assert_eq!(decode_payload(&[0x12, 3, b'a', b'b']).unwrap_err(), FrameError::MalformedPayload);
    assert_eq!(decode_payload(&[0x08]).unwrap_err(), FrameError::MalformedPayload);
}

#[test]
fn keys_outside_the_format_are_malformed() {
    // field number zero
    assert_eq!(decode_payload(&[0x00, 0x01]).unwrap_err(), FrameError::MalformedPayload);
    // the two group wire types, and the two that do not exist
    for wire in [3u8, 4, 6, 7] {
        assert_eq!(decode_payload(&[8 + wire, 0]).unwrap_err(), FrameError::MalformedPayload);
    }
    // a key of more than 32 bits
    let wide = [0x88, 0x80, 0x80, 0x80, 0x10, 0x00];
    assert_eq!(decode_payload(&wide).unwrap_err(), FrameError::MalformedPayload);
}

#[test]
fn largest_field_number_round_trips() {
    let payload = Payload { fields: vec![Field { number: 536_870_911, value: FieldValue::Varint(1) }] };
    let bytes = encode_payload(&payload).unwrap();
    assert_eq!(bytes, vec![0xF8, 0xFF, 0xFF, 0xFF, 0x0F, 0x01]);
    let back = decode_payload(&bytes).unwrap();
    assert_eq!(back.fields[0].number, 536_870_911);
    let beyond = Payload { fields: vec![Field { number: 536_870_912, value: FieldValue::Varint(1) }] };
    assert_eq!(
        encode_payload(&beyond),
        Err(EncodeError::InvalidFieldNumber { index: 0, number: 536_870_912 })
    );
}

#[test]
fn empty_byte_string_round_trips() {
    let payload = Payload { fields: vec![Field { number: 7, value: FieldValue::Bytes(vec![]) }] };
    let bytes = encode_payload(&payload).unwrap();
    assert_eq!(bytes, vec![0x3A, 0x00]);
    let back = decode_payload(&bytes).unwrap();
    assert_eq!(bytes_of(&back.fields[0]), Vec::<u8>::new());
}

#[test]
fn round_trip_holds_for_every_kind_and_wire_type() {
    let payload = Payload {
        fields: vec![
            Field { number: 1, value: FieldValue::Varint(0) },
            Field { number: 2, value: FieldValue::Varint(127) },
            Field { number: 2, value: FieldValue::Varint(128) },
            Field { number: 16, value: FieldValue::Fixed64(u64::MAX) },
            Field { number: 2047, value: FieldValue::Bytes((0u8..=255).collect()) },
            Field { number: 2048, value: FieldValue::Fixed32(0) },
        ],
    };
    for tag in 1u8..=12 {
        let kind = MessageKind::from_tag(tag).unwrap();
        let message = MessageWrapper::new(kind, payload.clone());
        let frame = message.to_bytes().unwrap();
        assert_eq!(frame[0], tag);
        let back = MessageWrapper::from_bytes(&frame).unwrap();
        assert_eq!(back.kind(), kind);
        assert_eq!(format!("{:?}", back.payload()), format!("{:?}", payload));
        assert_eq!(back.to_bytes().unwrap(), frame);
    }
}

#[test]
fn error_texts() {
    assert_eq!(FrameError::EmptyFrame.to_string(), "Buffer is empty");
    assert_eq!(FrameError::UnknownKind(200).to_string(), "Unknown message ID");
    assert_eq!(FrameError::MalformedPayload.to_string(), "Malformed payload");
}
