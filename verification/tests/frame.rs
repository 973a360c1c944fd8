use alacritty_web::frame::FrameState;

#[test]
fn batched_feed_matches_individual_feeds() {
    let pieces: &[&[u8]] = &[b"al", b"acrit", b"ty", b"\r\n", b"web"];
    let mut a = FrameState::new();
    for p in pieces {
        a.feed(p);
    }
    let combined: Vec<u8> = pieces.iter().flat_map(|p| p.iter().copied()).collect();
    assert_eq!(a.pending_bytes(), combined.len() as u32);
    assert_eq!(a.take_input(), combined);
    assert_eq!(a.pending_bytes(), 0);
}

#[test]
fn socket_chunks_parse_before_fed_bytes() {
    let mut s = FrameState::new();
    s.feed(b"ab");
    s.queue_chunks(&vec![b"cd".to_vec(), Vec::new(), b"e".to_vec()]);
    assert_eq!(s.take_input(), b"cdeab".to_vec());
    assert!(s.take_input().is_empty());
}

#[test]
fn render_decisions() {
    let mut s = FrameState::new();
    // The first frame is painted.
    assert!(s.should_render(false));
    assert!(!s.finish_render(0));
    assert_eq!(s.frame_seq(), 1);
    // Nothing changed: no paint.
    assert!(!s.should_render(false));
    // A fading bell keeps painting, and the frame after it too.
    assert!(s.should_render(true));
    assert!(s.finish_render(2));
    assert!(s.should_render(false));
    assert!(!s.finish_render(0));
    assert!(!s.should_render(false));
    assert_eq!(s.frame_seq(), 3);
}

#[test]
fn focus_changes_repaint() {
    let mut s = FrameState::new();
    s.should_render(false);
    s.finish_render(0);
    s.set_focused(true);
    assert!(!s.should_render(false));
    s.set_focused(false);
    assert!(!s.focused());
    assert!(s.should_render(false));
    s.finish_render(0);
    s.mark_dirty();
    assert!(s.should_render(false));
}
