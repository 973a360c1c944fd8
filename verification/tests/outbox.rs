use alacritty_web::outbox::{server_payload, Outbox, Outgoing};
use alacritty_web::protocol::{encode_data, encode_exit};

#[test]
fn messages_wait_until_open_then_flush_once() {
    let mut o = Outbox::new();
    assert_eq!(o.send_pty_data(b"ls", false), None);
    assert_eq!(o.send_resize(80, 24, 0, 0, false), None);
    assert!(o.flush_pending(false).is_empty());
    let out = o.flush_pending(true);
    assert_eq!(
        out,
        vec![
            Outgoing::Binary(vec![0, b'l', b's']),
            Outgoing::Binary(vec![1, 80, 0, 24, 0, 0, 0, 0, 0]),
        ]
    );
    assert!(o.flush_pending(true).is_empty());
}

#[test]
fn open_socket_sends_immediately() {
    let mut o = Outbox::new();
    assert_eq!(o.send_pty_data(b"x", true), Some(vec![0, b'x']));
    assert_eq!(o.send_or_queue(vec![7], true), Some(vec![7]));
    assert!(o.flush_pending(true).is_empty());
}

#[test]
fn token_goes_first() {
    let mut o = Outbox::with_token("secret".to_string());
    assert_eq!(o.send_pty_data(b"a", false), None);
    assert_eq!(
        o.flush_pending(true),
        vec![Outgoing::Text("secret".to_string()), Outgoing::Binary(vec![0, b'a'])]
    );
}

#[test]
fn server_frames_carry_pty_output() {
    assert_eq!(server_payload(&[0, b'h', b'i']), Some(vec![b'h', b'i']));
    assert_eq!(server_payload(&[0]), None);
    assert_eq!(server_payload(&[2, 0]), None);
    assert_eq!(server_payload(&[]), None);
}

#[test]
fn server_data_frames_round_trip_to_the_terminal() {
    assert_eq!(server_payload(&encode_data(b"out\r\n")), Some(b"out\r\n".to_vec()));
    assert_eq!(server_payload(&encode_data(b"")), None);
    assert_eq!(server_payload(&encode_exit(Some(0))), None);
    assert_eq!(server_payload(&encode_exit(None)), None);
}
