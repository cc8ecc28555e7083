use vigenere_udp::client_util::{create_message, encode_message};
use vigenere_udp::data_types::Message;
use vigenere_udp::server_util::{ack_payload, decode_error_report, deserialize_message, handle_datagram};

fn msg(seq: u8, text: &str) -> Message {
    create_message(seq, text.to_string())
}

#[test]
fn encode_short_message() {
    let bytes = encode_message(&msg(5, "hi")).unwrap();
    assert_eq!(bytes, vec![5, 2, b'h', b'i']);
}

#[test]
fn encode_counts_utf8_bytes() {
    let bytes = encode_message(&msg(0, "é")).unwrap();
    assert_eq!(bytes, vec![0, 2, 0xc3, 0xa9]);
}

#[test]
fn encode_long_message_uses_two_byte_length() {
    let text = "a".repeat(300);
    let bytes = encode_message(&msg(9, &text)).unwrap();
    assert_eq!(&bytes[..4], &[9, 251, 44, 1]);
    assert_eq!(bytes.len(), 4 + 300);
}

#[test]
fn round_trip_keeps_sequence_and_text() {
    for (seq, text) in [(0u8, ""), (1, "hello\n"), (255, "Grüße, 世界"), (7, &"x".repeat(70000)[..])] {
        let bytes = encode_message(&msg(seq, text)).unwrap();
        let (m, used) = deserialize_message(&bytes).unwrap();
        assert_eq!(m.seq_number, seq);
        assert_eq!(m.message, text);
        assert_eq!(used, bytes.len());
    }
}

#[test]
fn decode_leaves_trailing_bytes() {
    let (m, used) = deserialize_message(&[3, 1, b'z', 0, 0, 0]).unwrap();
    assert_eq!(m.seq_number, 3);
    assert_eq!(m.message, "z");
    assert_eq!(used, 3);
}

#[test]
fn decode_accepts_wide_length_form() {
    let (m, used) = deserialize_message(&[7, 251, 2, 0, b'h', b'i']).unwrap();
    assert_eq!(m.message, "hi");
    assert_eq!(used, 6);
}

#[test]
fn decode_errors_are_reported() {
    for bad in [&[][..], &[1][..], &[1, 3, b'a'][..], &[1, 1, 0xff][..], &[1, 255][..], &[1, 254, 0][..]] {
        let e = deserialize_message(bad).err().unwrap();
        assert!(e.starts_with("[SERVER] Decode error: "), "{}", e);
    }
}

#[test]
fn decode_error_carries_bincode_text() {
    assert_eq!(
        deserialize_message(&[]).err().unwrap(),
        "[SERVER] Decode error: UnexpectedEnd { additional: 1 }"
    );
    assert_eq!(
        decode_error_report(&"x".to_string()),
        "[SERVER] Decode error: x"
    );
}

#[test]
fn server_acknowledges_with_sequence_number() {
    let bytes = encode_message(&msg(42, "ping")).unwrap();
    let (m, ack) = handle_datagram(&bytes).unwrap();
    assert_eq!(m.message, "ping");
    assert_eq!(ack, vec![42]);
    assert_eq!(ack_payload(&m), vec![42]);
    assert!(handle_datagram(&[9, 5, b'a']).is_err());
}
