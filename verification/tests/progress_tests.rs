use buck::progress::{ProgressTracker, Span};

fn sp(start: u32, end: u32, backward: bool) -> Span {
    Span { start, end, backward }
}

#[test]
fn forward_playback_paints_adjacent_spans_left_to_right() {
    // ten chunks of twelve pixels over a hundred seconds
    let mut p = ProgressTracker::new(120);
    p.set_length(100_000);
    assert_eq!(p.on_position(3_000), None);
    assert_eq!(p.on_position(10_000), Some(sp(0, 12, false)));
    assert_eq!(p.on_position(15_000), None);
    assert_eq!(p.on_position(20_000), Some(sp(12, 24, false)));
    assert_eq!(p.on_position(100_000), Some(sp(24, 120, false)));
    assert_eq!(p.cursor_px(), 120);
}

#[test]
fn monotone_feed_covers_the_bar_exactly_once() {
    let mut p = ProgressTracker::new(120);
    p.set_length(100_000);
    let mut expected_start = 0;
    let mut covered = 0;
    for step in 1..=20u64 {
        if let Some(s) = p.on_position(step * 5_000) {
            assert!(!s.backward);
            assert_eq!(s.start, expected_start);
            assert!(s.end > s.start);
            covered += s.end - s.start;
            expected_start = s.end;
        }
    }
    assert_eq!(covered, 120);
}

#[test]
fn sub_threshold_movement_issues_no_span() {
    let mut p = ProgressTracker::new(120);
    p.set_length(100_000);
    for pos in [1_000u64, 3_000, 5_000, 7_000, 9_000] {
        assert_eq!(p.on_position(pos), None);
    }
    assert_eq!(p.cursor_px(), 0);
}

#[test]
fn a_backward_seek_repaints_the_ground_given_back() {
    let mut p = ProgressTracker::new(120);
    p.set_length(100_000);
    p.on_position(100_000);
    assert_eq!(p.cursor_px(), 120);
    assert_eq!(p.on_position(40_000), Some(sp(48, 121, true)));
    assert_eq!(p.cursor_px(), 48);
}

#[test]
fn positions_without_a_known_length_are_ignored() {
    let mut p = ProgressTracker::new(120);
    assert_eq!(p.on_position(50_000), None);
    assert_eq!(p.cursor_px(), 0);
    p.set_length(0);
    assert_eq!(p.on_position(50_000), None);
}
