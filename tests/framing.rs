use hypermangle_core::message::{body_len, decode, decode_payload, encode, encode_payload, ControlMessage, DecodeError};

fn round_trip(m: &ControlMessage) -> ControlMessage {
    let frame = encode(m);
    match decode(&frame) {
        Ok(back) => back,
        Err(e) => panic!("frame did not decode: {:?}", e),
    }
}

#[test]
fn round_trip_id_request() {
    assert!(matches!(round_trip(&ControlMessage::IdRequest), ControlMessage::IdRequest));
}

#[test]
fn round_trip_id_response() {
    assert!(matches!(
        round_trip(&ControlMessage::IdResponse(0x0102_0304)),
        ControlMessage::IdResponse(0x0102_0304)
    ));
    assert!(matches!(
        round_trip(&ControlMessage::IdResponse(u32::MAX)),
        ControlMessage::IdResponse(u32::MAX)
    ));
}

#[test]
fn round_trip_args() {
    let args = vec!["prog".to_string(), "status".to_string(), String::new(), "héllo wörld".to_string()];
    match round_trip(&ControlMessage::Args(args.clone())) {
        ControlMessage::Args(back) => assert_eq!(back, args),
        _ => panic!("wrong variant"),
    }
    match round_trip(&ControlMessage::Args(Vec::new())) {
        ControlMessage::Args(back) => assert!(back.is_empty()),
        _ => panic!("wrong variant"),
    }
}

#[test]
fn round_trip_packet() {
    for text in ["", "a", "line\n", "ünïcödé ✓ 🚀"] {
        match round_trip(&ControlMessage::Packet(text.to_string())) {
            ControlMessage::Packet(back) => assert_eq!(back, text),
            _ => panic!("wrong variant"),
        }
    }
}

#[test]
fn round_trip_close_socket() {
    assert!(matches!(round_trip(&ControlMessage::CloseSocket), ControlMessage::CloseSocket));
}

#[test]
fn id_request_frame_bytes() {
    assert_eq!(encode(&ControlMessage::IdRequest), vec![4, 0, 0, 0, 0, 0, 0, 0, 0, 0, 0, 0]);
}

#[test]
fn id_response_frame_bytes() {
    assert_eq!(
        encode(&ControlMessage::IdResponse(0x0102_0304)),
        vec![8, 0, 0, 0, 0, 0, 0, 0, 1, 0, 0, 0, 4, 3, 2, 1]
    );
}

#[test]
fn close_socket_frame_bytes() {
    assert_eq!(encode(&ControlMessage::CloseSocket), vec![4, 0, 0, 0, 0, 0, 0, 0, 4, 0, 0, 0]);
}

#[test]
fn packet_frame_bytes() {
    // "é" is two bytes of UTF-8.
    assert_eq!(
        encode(&ControlMessage::Packet("aé".to_string())),
        vec![15, 0, 0, 0, 0, 0, 0, 0, 3, 0, 0, 0, 3, 0, 0, 0, 0, 0, 0, 0, b'a', 0xc3, 0xa9]
    );
}

#[test]
fn args_payload_bytes() {
    let args = vec!["ab".to_string(), "c".to_string()];
    assert_eq!(
        encode_payload(&ControlMessage::Args(args)),
        vec![
            2, 0, 0, 0, 2, 0, 0, 0, 0, 0, 0, 0, 2, 0, 0, 0, 0, 0, 0, 0, b'a', b'b', 1, 0, 0, 0, 0,
            0, 0, 0, b'c'
        ]
    );
}

#[test]
fn body_len_reads_little_endian() {
    assert_eq!(body_len(&[13, 0, 0, 0, 0, 0, 0, 0]), 13);
    assert_eq!(body_len(&[0, 1, 0, 0, 0, 0, 0, 0]), 256);
}

#[test]
fn short_frame_is_bad_length() {
    assert!(matches!(decode(&[]), Err(DecodeError::BadLength)));
    assert!(matches!(decode(&[4, 0, 0]), Err(DecodeError::BadLength)));
}

#[test]
fn mismatched_prefix_is_bad_length() {
    let mut frame = encode(&ControlMessage::CloseSocket);
    frame.push(0);
    assert!(matches!(decode(&frame), Err(DecodeError::BadLength)));
    let frame = vec![9, 0, 0, 0, 0, 0, 0, 0, 4, 0, 0, 0];
    assert!(matches!(decode(&frame), Err(DecodeError::BadLength)));
}

#[test]
fn unknown_tag_is_bad_payload() {
    let frame = vec![4, 0, 0, 0, 0, 0, 0, 0, 5, 0, 0, 0];
    assert!(matches!(decode(&frame), Err(DecodeError::BadPayload)));
}

#[test]
fn trailing_bytes_are_bad_payload() {
    assert!(matches!(decode_payload(&[0, 0, 0, 0, 0]), Err(DecodeError::BadPayload)));
    assert!(matches!(decode_payload(&[1, 0, 0, 0, 1, 2, 3, 4, 5]), Err(DecodeError::BadPayload)));
}

#[test]
fn truncated_fields_are_bad_payload() {
    assert!(matches!(decode_payload(&[1, 0, 0, 0, 1, 2]), Err(DecodeError::BadPayload)));
    assert!(matches!(decode_payload(&[3, 0, 0, 0, 5, 0, 0, 0, 0, 0, 0, 0, b'a']), Err(DecodeError::BadPayload)));
    // Two texts announced, one given.
    assert!(matches!(
        decode_payload(&[2, 0, 0, 0, 2, 0, 0, 0, 0, 0, 0, 0, 1, 0, 0, 0, 0, 0, 0, 0, b'x']),
        Err(DecodeError::BadPayload)
    ));
    assert!(matches!(decode_payload(&[0, 0]), Err(DecodeError::BadPayload)));
}

#[test]
fn invalid_utf8_is_bad_payload() {
    assert!(matches!(
        decode_payload(&[3, 0, 0, 0, 1, 0, 0, 0, 0, 0, 0, 0, 0xff]),
        Err(DecodeError::BadPayload)
    ));
}

#[test]
fn decode_payload_reads_fields() {
    match decode_payload(&[3, 0, 0, 0, 2, 0, 0, 0, 0, 0, 0, 0, b'h', b'i']) {
        Ok(ControlMessage::Packet(text)) => assert_eq!(text, "hi"),
        _ => panic!("expected a packet"),
    }
    match decode_payload(&[1, 0, 0, 0, 42, 0, 0, 0]) {
        Ok(ControlMessage::IdResponse(pid)) => assert_eq!(pid, 42),
        _ => panic!("expected an id response"),
    }
}
