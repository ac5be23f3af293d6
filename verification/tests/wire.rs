use antifa::wire::{
    decode_wire_payload, frame_payload_len, read_wire_message, write_wire_message, WireError,
    WireMessage,
};

#[test]
fn wire_messages_round_trip() {
    let message = WireMessage { from: "alice.onion".to_owned(), body: "hello".to_owned() };
    let expected = WireMessage { from: message.from.clone(), body: message.body.clone() };
    let bytes = write_wire_message(&expected).unwrap();
    assert!(bytes.len() <= 256);
    let actual = read_wire_message(&bytes).unwrap().map(|(m, _)| m);
    assert_eq!(actual, Some(message));
}

#[test]
fn frame_layout_is_length_then_bincode_pair() {
    let m = WireMessage { from: "a".to_owned(), body: "hé".to_owned() };
    let bytes = write_wire_message(&m).unwrap();
    let mut expected = vec![0u8, 0, 0, 20];
    expected.extend_from_slice(&[1, 0, 0, 0, 0, 0, 0, 0, b'a']);
    expected.extend_from_slice(&[3, 0, 0, 0, 0, 0, 0, 0, b'h', 0xc3, 0xa9]);
    assert_eq!(bytes, expected);
    assert_eq!(frame_payload_len(&bytes[..4]), 20);
}

#[test]
fn round_trip_ignores_following_bytes() {
    let m = WireMessage { from: "bob.onion".to_owned(), body: "two\nlines ✓".to_owned() };
    let mut bytes = write_wire_message(&m).unwrap();
    let len = bytes.len();
    bytes.extend_from_slice(&[9, 9, 9, 9, 9, 9]);
    let (read, end) = read_wire_message(&bytes).unwrap().unwrap();
    assert_eq!(read, m);
    assert_eq!(end, len);
}

#[test]
fn empty_strings_round_trip() {
    let m = WireMessage { from: String::new(), body: String::new() };
    let bytes = write_wire_message(&m).unwrap();
    assert_eq!(bytes.len(), 4 + 16);
    assert_eq!(read_wire_message(&bytes).unwrap(), Some((m, 20)));
}

#[test]
fn short_header_reads_nothing() {
    assert_eq!(read_wire_message(&[]).unwrap(), None);
    assert_eq!(read_wire_message(&[0, 0, 1]).unwrap(), None);
}

#[test]
fn truncated_payload_is_an_error() {
    assert_eq!(read_wire_message(&[0, 0, 0, 5, 1, 2]), Err(WireError::TruncatedPayload));
}

#[test]
fn undecodable_payload_is_an_error() {
    // The first string claims 200 bytes.
    let payload = [200u8, 0, 0, 0, 0, 0, 0, 0, b'x'];
    assert_eq!(decode_wire_payload(&payload), Err(WireError::Decode));
    // Invalid UTF-8.
    let bad = [1u8, 0, 0, 0, 0, 0, 0, 0, 0xff, 0, 0, 0, 0, 0, 0, 0, 0];
    assert_eq!(decode_wire_payload(&bad), Err(WireError::Decode));
    let mut frame = vec![0u8, 0, 0, bad.len() as u8];
    frame.extend_from_slice(&bad);
    assert_eq!(read_wire_message(&frame), Err(WireError::Decode));
}

#[test]
fn payload_with_trailing_bytes_decodes() {
    let payload = [1u8, 0, 0, 0, 0, 0, 0, 0, b'a', 1, 0, 0, 0, 0, 0, 0, 0, b'b', 7, 7];
    let m = decode_wire_payload(&payload).unwrap();
    assert_eq!(m, WireMessage { from: "a".to_owned(), body: "b".to_owned() });
}

#[test]
fn error_messages() {
    assert_eq!(WireError::TooLarge.message(), "message too large");
    assert_eq!(WireError::TruncatedPayload.message(), "read message payload");
    assert_eq!(WireError::Decode.message(), "decode message payload");
}

#[test]
fn successive_messages_are_read_back_in_order() {
    let pairs = [("a.onion", "one"), ("", "two\nlines"), ("c.onion", "")];
    let mut stream = Vec::new();
    for (from, body) in pairs {
        let m = WireMessage { from: from.to_owned(), body: body.to_owned() };
        stream.extend(write_wire_message(&m).unwrap());
    }
    let mut offset = 0;
    for (from, body) in pairs {
        let (m, used) = read_wire_message(&stream[offset..]).unwrap().unwrap();
        assert_eq!(m, WireMessage { from: from.to_owned(), body: body.to_owned() });
        assert_eq!(used, 4 + 16 + from.len() + body.len());
        offset += used;
    }
    assert_eq!(offset, stream.len());
    assert_eq!(read_wire_message(&stream[offset..]).unwrap(), None);
}
