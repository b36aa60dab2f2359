use bore_relay::wire::{
    decode_client, decode_server, encode_client, encode_server, frame_client, frame_server,
    split_frame, ClientMessage, ServerMessage,
};
use bore_relay::TunnelError;

#[test]
fn client_hello_round_trips() {
    let enc = encode_client(&ClientMessage::Hello { requested_port: 1024 });
    let m = decode_client(enc.as_slice()).unwrap();
    assert!(matches!(m, ClientMessage::Hello { requested_port: 1024 }));
}

#[test]
fn client_accept_round_trips() {
    let id: u128 = 0x1122_3344_5566_7788_99aa_bbcc_ddee_ff00;
    let enc = encode_client(&ClientMessage::Accept { connection_id: id });
    match decode_client(enc.as_slice()).unwrap() {
        ClientMessage::Accept { connection_id } => assert_eq!(connection_id, id),
        _ => panic!("wrong variant"),
    }
}

#[test]
fn client_authenticate_round_trips() {
    let tag = vec![7u8, 8, 9, 10];
    let enc = encode_client(&ClientMessage::Authenticate { tag: tag.clone() });
    match decode_client(enc.as_slice()).unwrap() {
        ClientMessage::Authenticate { tag: t } => assert_eq!(t, tag),
        _ => panic!("wrong variant"),
    }
}

#[test]
fn server_messages_round_trip() {
    let enc = encode_server(&ServerMessage::Hello { assigned_port: 443 });
    assert!(matches!(
        decode_server(enc.as_slice()).unwrap(),
        ServerMessage::Hello { assigned_port: 443 }
    ));

    let enc = encode_server(&ServerMessage::Challenge { nonce: 12345 });
    assert!(matches!(
        decode_server(enc.as_slice()).unwrap(),
        ServerMessage::Challenge { nonce: 12345 }
    ));

    let enc = encode_server(&ServerMessage::Heartbeat);
    assert!(matches!(
        decode_server(enc.as_slice()).unwrap(),
        ServerMessage::Heartbeat
    ));

    let enc = encode_server(&ServerMessage::Connection { connection_id: 99 });
    assert!(matches!(
        decode_server(enc.as_slice()).unwrap(),
        ServerMessage::Connection { connection_id: 99 }
    ));

    let enc = encode_server(&ServerMessage::Error { message: vec![4u8] });
    match decode_server(enc.as_slice()).unwrap() {
        ServerMessage::Error { message } => assert_eq!(message, vec![4u8]),
        _ => panic!("wrong variant"),
    }
}

#[test]
fn malformed_payloads_are_protocol_errors() {
    assert!(matches!(decode_client(&[]), Err(TunnelError::Protocol)));
    assert!(matches!(decode_client(&[9u8, 0, 0]), Err(TunnelError::Protocol)));
    // A hello payload of the wrong length.
    assert!(matches!(decode_client(&[1u8, 0]), Err(TunnelError::Protocol)));
    assert!(matches!(decode_server(&[]), Err(TunnelError::Protocol)));
    assert!(matches!(decode_server(&[8u8]), Err(TunnelError::Protocol)));
    // A heartbeat with a trailing byte.
    assert!(matches!(decode_server(&[3u8, 0]), Err(TunnelError::Protocol)));
}

#[test]
fn framing_is_length_prefixed_and_exact() {
    let frame = frame_client(&ClientMessage::Hello { requested_port: 7 });
    // Two length bytes (little endian), then tag and port.
    assert_eq!(frame.len(), 5);
    assert_eq!(&frame[0..2], &[3u8, 0]);

    // A frame followed by extra bytes splits into exactly that frame and the
    // untouched remainder.
    let mut buf = frame.clone();
    buf.extend_from_slice(&[0xde, 0xad]);
    let (payload, rest) = split_frame(buf);
    let m = decode_client(payload.unwrap().as_slice()).unwrap();
    assert!(matches!(m, ClientMessage::Hello { requested_port: 7 }));
    assert_eq!(rest, vec![0xde, 0xad]);
}

#[test]
fn incomplete_frames_wait_for_more_bytes() {
    let (p, rest) = split_frame(vec![]);
    assert!(p.is_none());
    assert!(rest.is_empty());

    let (p, rest) = split_frame(vec![5u8]);
    assert!(p.is_none());
    assert_eq!(rest, vec![5u8]);

    // Length says three bytes, only two have arrived.
    let (p, rest) = split_frame(vec![3u8, 0, 1, 0]);
    assert!(p.is_none());
    assert_eq!(rest, vec![3u8, 0, 1, 0]);
}

#[test]
fn server_frame_round_trips() {
    let frame = frame_server(&ServerMessage::Connection { connection_id: 5 });
    let (payload, rest) = split_frame(frame);
    assert!(rest.is_empty());
    assert!(matches!(
        decode_server(payload.unwrap().as_slice()).unwrap(),
        ServerMessage::Connection { connection_id: 5 }
    ));
}
