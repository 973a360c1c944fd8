use alacritty_web::protocol::{
    encode_data, encode_exit, encode_resize, parse_client_message, ClientMessage, MSG_DATA,
    MSG_EXIT, MSG_RESIZE,
};

#[test]
fn empty_input_returns_none() {
    assert!(parse_client_message(&[]).is_none());
}

#[test]
fn unknown_tag_returns_none() {
    assert!(parse_client_message(&[0xff, 1, 2, 3]).is_none());
}

#[test]
fn data_message_extracts_payload() {
    let msg = parse_client_message(&[MSG_DATA, b'h', b'i']);
    match msg {
        Some(ClientMessage::Data(bytes)) => assert_eq!(bytes, b"hi"),
        _ => panic!("expected Data, got {:?}", msg),
    }
}

#[test]
fn data_message_with_only_tag_yields_empty_payload() {
    match parse_client_message(&[MSG_DATA]) {
        Some(ClientMessage::Data(bytes)) => assert!(bytes.is_empty()),
        other => panic!("expected empty Data, got {:?}", other),
    }
}

#[test]
fn resize_message_decodes_little_endian_u16() {
    let mut bytes = vec![MSG_RESIZE];
    bytes.extend_from_slice(&80u16.to_le_bytes());
    bytes.extend_from_slice(&24u16.to_le_bytes());
    bytes.extend_from_slice(&8u16.to_le_bytes());
    bytes.extend_from_slice(&16u16.to_le_bytes());
    match parse_client_message(&bytes) {
        Some(ClientMessage::Resize { cols, rows, cell_w, cell_h }) => {
            assert_eq!((cols, rows, cell_w, cell_h), (80, 24, 8, 16));
        },
        other => panic!("expected Resize, got {:?}", other),
    }
}

#[test]
fn resize_message_too_short_returns_none() {
    let bytes = vec![MSG_RESIZE, 0, 0, 0, 0, 0, 0];
    assert!(parse_client_message(&bytes).is_none());
}

#[test]
fn resize_clamps_oversized_cols_rows() {
    let mut bytes = vec![MSG_RESIZE];
    bytes.extend_from_slice(&9999u16.to_le_bytes());
    bytes.extend_from_slice(&9999u16.to_le_bytes());
    bytes.extend_from_slice(&8u16.to_le_bytes());
    bytes.extend_from_slice(&16u16.to_le_bytes());
    match parse_client_message(&bytes) {
        Some(ClientMessage::Resize { cols, rows, .. }) => {
            assert_eq!(cols, 500, "cols must clamp to 500");
            assert_eq!(rows, 200, "rows must clamp to 200");
        },
        other => panic!("expected Resize, got {:?}", other),
    }
}

#[test]
fn resize_clamps_zero_cols_rows_up() {
    let mut bytes = vec![MSG_RESIZE];
    bytes.extend_from_slice(&0u16.to_le_bytes());
    bytes.extend_from_slice(&0u16.to_le_bytes());
    bytes.extend_from_slice(&8u16.to_le_bytes());
    bytes.extend_from_slice(&16u16.to_le_bytes());
    match parse_client_message(&bytes) {
        Some(ClientMessage::Resize { cols, rows, .. }) => {
            assert_eq!(cols, 1);
            assert_eq!(rows, 1);
        },
        other => panic!("expected Resize, got {:?}", other),
    }
}

#[test]
fn encode_data_prepends_msg_tag() {
    assert_eq!(encode_data(b"abc"), vec![MSG_DATA, b'a', b'b', b'c']);
    assert_eq!(encode_data(&[]), vec![MSG_DATA]);
}

#[test]
fn encode_exit_with_code() {
    assert_eq!(encode_exit(Some(42)), vec![MSG_EXIT, 42]);
}

#[test]
fn encode_exit_without_code() {
    assert_eq!(encode_exit(None), vec![MSG_EXIT]);
}

#[test]
fn data_roundtrip_through_parser() {
    let payload = vec![0u8, 1, 2, 0xff, b'x'];
    match parse_client_message(&encode_data(&payload)) {
        Some(ClientMessage::Data(bytes)) => assert_eq!(bytes, payload),
        other => panic!("expected Data, got {:?}", other),
    }
}

#[test]
fn resize_roundtrip_through_parser_clamps() {
    let msg = encode_resize(501, 0, 0x1234, 0xffff);
    assert_eq!(msg, vec![MSG_RESIZE, 0xf5, 0x01, 0, 0, 0x34, 0x12, 0xff, 0xff]);
    match parse_client_message(&msg) {
        Some(ClientMessage::Resize { cols, rows, cell_w, cell_h }) => {
            assert_eq!((cols, rows, cell_w, cell_h), (500, 1, 0x1234, 0xffff));
        },
        other => panic!("expected Resize, got {:?}", other),
    }
}

#[test]
fn resize_keeps_values_inside_bounds_and_ignores_trailing_bytes() {
    let mut msg = encode_resize(500, 200, 7, 9);
    msg.push(0xaa);
    match parse_client_message(&msg) {
        Some(ClientMessage::Resize { cols, rows, cell_w, cell_h }) => {
            assert_eq!((cols, rows, cell_w, cell_h), (500, 200, 7, 9));
        },
        other => panic!("expected Resize, got {:?}", other),
    }
}

#[test]
fn exit_tag_from_client_is_not_a_client_message() {
    assert!(parse_client_message(&[MSG_EXIT, 0]).is_none());
}
