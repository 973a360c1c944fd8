use alacritty_web::events::{ClipboardEvent, EventState, TermEvent, BELL_DECAY_MAX};

#[test]
fn title_last_write_wins_and_resets() {
    let mut s = EventState::new();
    assert_eq!(s.title(), None);
    s.handle(TermEvent::Title("my-shell".to_string()));
    assert_eq!(s.title().as_deref(), Some("my-shell"));
    s.handle(TermEvent::Title("~/projects/foo".to_string()));
    assert_eq!(s.title().as_deref(), Some("~/projects/foo"));
    s.handle(TermEvent::ResetTitle);
    assert_eq!(s.title(), None);
}

#[test]
fn bell_peaks_and_decays() {
    let mut s = EventState::new();
    assert_eq!(s.bell_level(), 0);
    assert!(!s.bell_active());
    s.handle(TermEvent::Bell);
    assert_eq!(s.bell_level(), BELL_DECAY_MAX);
    assert!(s.bell_active());
    for expected in (0..BELL_DECAY_MAX).rev() {
        s.decay_bell();
        assert_eq!(s.bell_level(), expected);
    }
    assert!(!s.bell_active());
    s.decay_bell();
    assert_eq!(s.bell_level(), 0);
}

#[test]
fn repeated_bells_resaturate() {
    let mut s = EventState::new();
    s.handle(TermEvent::Bell);
    s.decay_bell();
    s.decay_bell();
    s.handle(TermEvent::Bell);
    assert_eq!(s.bell_level(), BELL_DECAY_MAX);
}

#[test]
fn color_requests_queue_and_drain() {
    let mut s = EventState::new();
    assert!(s.drain_color_requests().is_empty());
    s.handle(TermEvent::ColorRequest(257));
    s.handle(TermEvent::ColorRequest(4));
    assert_eq!(s.drain_color_requests(), vec![257, 4]);
    assert!(s.drain_color_requests().is_empty());
}

#[test]
fn clipboard_and_pty_writes_queue_in_order() {
    let mut s = EventState::new();
    s.handle(TermEvent::ClipboardStore("copied".to_string()));
    s.handle(TermEvent::ClipboardLoad);
    s.handle(TermEvent::PtyWrite("\x1b[0n".to_string()));
    s.push_pty_write("reply".to_string());
    s.handle(TermEvent::Wakeup);
    s.handle(TermEvent::Other);
    assert_eq!(
        s.drain_clipboard_events(),
        vec![ClipboardEvent::Store("copied".to_string()), ClipboardEvent::Load]
    );
    assert_eq!(s.drain_pty_writes(), vec!["\x1b[0n".to_string(), "reply".to_string()]);
    assert!(s.drain_pty_writes().is_empty());
    assert!(s.drain_clipboard_events().is_empty());
}
