use fileprotocol::{
    decode_body, decode_frame, decode_header, decode_payload, encode_header, read_message,
    response_to, write_message, ByteStream, DecodeError, Frame, Message, MessageType,
};

fn decode(bytes: &[u8]) -> Result<Option<Message>, DecodeError> {
    let mut stream = ByteStream::new(bytes.to_vec());
    read_message(&mut stream)
}

fn round_trip(m: Message) {
    let bytes = write_message(m.clone()).unwrap();
    assert_eq!(decode(&bytes), Ok(Some(m)));
}

#[test]
fn round_trip_every_kind() {
    round_trip(Message::Okay);
    round_trip(Message::Clear);
    round_trip(Message::Ping);
    round_trip(Message::Write { content: vec![1, 2, 3, 0, 255] });
    round_trip(Message::Write { content: vec![] });
    round_trip(Message::Error { message: None });
    round_trip(Message::Error { message: Some(b"boom".to_vec()) });
}

#[test]
fn round_trip_large_body() {
    let content: Vec<u8> = (0..5000u32).map(|i| (i % 251) as u8).collect();
    round_trip(Message::Write { content });
}

#[test]
fn error_with_empty_detail_reads_back_without_detail() {
    let bytes = write_message(Message::Error { message: Some(vec![]) }).unwrap();
    assert_eq!(bytes, vec![4, 0, 0, 0, 0, 0, 0, 0]);
    assert_eq!(decode(&bytes), Ok(Some(Message::Error { message: None })));
}

#[test]
fn stream_holds_several_messages() {
    let mut bytes = write_message(Message::Write { content: b"abc".to_vec() }).unwrap();
    bytes.extend(write_message(Message::Ping).unwrap());
    let mut stream = ByteStream::new(bytes);
    assert_eq!(
        read_message(&mut stream),
        Ok(Some(Message::Write { content: b"abc".to_vec() }))
    );
    assert_eq!(stream.remaining(), 8);
    assert_eq!(read_message(&mut stream), Ok(Some(Message::Ping)));
    assert_eq!(stream.remaining(), 0);
    assert_eq!(read_message(&mut stream), Ok(None));
}

#[test]
fn header_round_trip_keeps_fields() {
    for &(code, length) in &[(1u8, 0u32), (3, 3), (9, 0x0102_0304), (255, 0x7fff_ffff), (0, 1)] {
        let bytes = encode_header(code, length);
        assert_eq!(bytes.len(), 8);
        assert_eq!(decode_header(&bytes), (code, length as i32));
    }
}

#[test]
fn header_bytes_are_big_endian() {
    assert_eq!(encode_header(3, 0x0102_0304), vec![3, 0, 0, 0, 1, 2, 3, 4]);
    assert_eq!(encode_header(5, 0x8000_0000), vec![5, 0, 0, 0, 0x80, 0, 0, 0]);
}

#[test]
fn header_ignores_reserved_bytes() {
    assert_eq!(decode_header(&[2, 7, 8, 9, 0, 0, 1, 0]), (2, 256));
}

#[test]
fn header_reads_signed_length() {
    assert_eq!(decode_header(&[1, 0, 0, 0, 0xff, 0xff, 0xff, 0xff]), (1, -1));
    assert_eq!(decode_header(&[1, 0, 0, 0, 0x80, 0, 0, 0]), (1, i32::MIN));
}

#[test]
fn body_takes_exactly_the_length() {
    assert_eq!(decode_body(&[1, 2, 3, 4], 3), Some(vec![1, 2, 3]));
    assert_eq!(decode_body(&[1, 2], 3), None);
    assert_eq!(decode_body(&[], 0), Some(vec![]));
}

#[test]
fn empty_stream_is_end_of_stream() {
    assert_eq!(decode(&[]), Ok(None));
}

#[test]
fn short_header_is_truncated() {
    let bytes = [1u8, 0, 0, 0, 0, 0, 0, 0];
    for n in 1..8 {
        assert_eq!(decode(&bytes[..n]), Err(DecodeError::Truncated));
    }
}

#[test]
fn ok_with_body_is_unexpected() {
    let bytes = [1u8, 0, 0, 0, 0, 0, 0, 5, 1, 2, 3, 4, 5];
    assert_eq!(decode(&bytes), Err(DecodeError::UnexpectedBody(MessageType::Okay)));
}

#[test]
fn clear_and_ping_with_body_are_unexpected() {
    assert_eq!(
        decode(&[2, 0, 0, 0, 0, 0, 0, 1, 9]),
        Err(DecodeError::UnexpectedBody(MessageType::Clear))
    );
    assert_eq!(
        decode(&[5, 0, 0, 0, 0, 0, 0, 1, 9]),
        Err(DecodeError::UnexpectedBody(MessageType::Ping))
    );
}

#[test]
fn unknown_type_is_reported_with_its_code() {
    let bytes = [9u8, 0, 0, 0, 0, 0, 0, 0];
    let outcome = decode(&bytes);
    assert_eq!(outcome, Err(DecodeError::UnknownType(9)));
    match response_to(outcome) {
        Some(Message::Error { message: Some(detail) }) => {
            assert!(!detail.is_empty());
            assert_eq!(detail, b"Message type not recognized: 9".to_vec());
        }
        other => panic!("unexpected reply {:?}", other),
    }
}

#[test]
fn unknown_type_zero() {
    assert_eq!(decode(&[0, 0, 0, 0, 0, 0, 0, 0]), Err(DecodeError::UnknownType(0)));
}

#[test]
fn negative_length_is_refused() {
    assert_eq!(decode(&[4, 0, 0, 0, 0xff, 0xff, 0xff, 0xfe]), Err(DecodeError::NegativeLength));
}

#[test]
fn short_body_is_body_truncated() {
    assert_eq!(
        decode(&[3, 0, 0, 0, 0, 0, 0, 3, b'a']),
        Err(DecodeError::BodyTruncated { expected: 3, got: 1 })
    );
}

#[test]
fn body_truncated_comes_before_type_check() {
    assert_eq!(
        decode(&[1, 0, 0, 0, 0, 0, 0, 5]),
        Err(DecodeError::BodyTruncated { expected: 5, got: 0 })
    );
}

#[test]
fn ok_scenario_decodes_and_encodes() {
    let bytes = [1u8, 0, 0, 0, 0, 0, 0, 0];
    assert_eq!(decode(&bytes), Ok(Some(Message::Okay)));
    assert_eq!(write_message(Message::Okay).unwrap(), bytes.to_vec());
}

#[test]
fn write_scenario_decodes() {
    let bytes = [3u8, 0, 0, 0, 0, 0, 0, 3, b'a', b'b', b'c'];
    assert_eq!(
        decode(&bytes),
        Ok(Some(Message::Write { content: vec![b'a', b'b', b'c'] }))
    );
}

#[test]
fn encoding_is_header_then_body() {
    assert_eq!(
        write_message(Message::Write { content: b"hi".to_vec() }).unwrap(),
        vec![3, 0, 0, 0, 0, 0, 0, 2, b'h', b'i']
    );
    assert_eq!(
        write_message(Message::Error { message: Some(vec![7]) }).unwrap(),
        vec![4, 0, 0, 0, 0, 0, 0, 1, 7]
    );
    assert_eq!(write_message(Message::Clear).unwrap(), vec![2, 0, 0, 0, 0, 0, 0, 0]);
    assert_eq!(write_message(Message::Ping).unwrap(), vec![5, 0, 0, 0, 0, 0, 0, 0]);
}

#[test]
fn header_and_body_steps() {
    assert_eq!(decode_frame(&[]), Ok(None));
    assert_eq!(decode_frame(&[3, 0]), Err(DecodeError::Truncated));
    let frame = decode_frame(&[3, 0, 0, 0, 0, 0, 0, 2]).unwrap().unwrap();
    assert_eq!(frame, Frame { message_type: MessageType::Write, content_length: 2 });
    assert_eq!(decode_payload(frame, b"xy"), Ok(Message::Write { content: b"xy".to_vec() }));
    assert_eq!(
        decode_payload(frame, b"x"),
        Err(DecodeError::BodyTruncated { expected: 2, got: 1 })
    );
    let error_frame = Frame { message_type: MessageType::Error, content_length: 0 };
    assert_eq!(decode_payload(error_frame, b""), Ok(Message::Error { message: None }));
}

#[test]
fn descriptions() {
    assert_eq!(DecodeError::Truncated.describe(), b"Message error: header is truncated".to_vec());
    assert_eq!(
        DecodeError::NegativeLength.describe(),
        b"Message error: content length is negative".to_vec()
    );
    assert_eq!(
        DecodeError::BodyTruncated { expected: 300, got: 12 }.describe(),
        b"Message error: body is 12 bytes, header states 300".to_vec()
    );
    assert_eq!(
        DecodeError::UnexpectedBody(MessageType::Okay).describe(),
        b"Content Length of Ok must be 0".to_vec()
    );
    assert_eq!(
        DecodeError::UnknownType(255).describe(),
        b"Message type not recognized: 255".to_vec()
    );
}

#[test]
fn replies() {
    assert_eq!(response_to(Ok(None)), None);
    assert_eq!(response_to(Ok(Some(Message::Ping))), Some(Message::Ping));
    assert_eq!(
        response_to(Err(DecodeError::Truncated)),
        Some(Message::Error { message: Some(b"Message error: header is truncated".to_vec()) })
    );
}

#[test]
fn type_codes() {
    let kinds = [
        (MessageType::Okay, 1u8),
        (MessageType::Clear, 2),
        (MessageType::Write, 3),
        (MessageType::Error, 4),
        (MessageType::Ping, 5),
    ];
    for &(kind, code) in &kinds {
        assert_eq!(kind.code(), code);
        assert_eq!(MessageType::from_code(code), Some(kind));
    }
    assert_eq!(MessageType::from_code(6), None);
    assert_eq!(Message::Error { message: None }.message_type(), MessageType::Error);
}
