use buck::catalog::Track;
use buck::cli::cli_payload;
use buck::draw::{scale_calc, DrawCmd};
use buck::elapsed::Elapsed;
use buck::keepalive::{BTKeepAlive, KeepaliveSignal, KeepaliveStep};
use buck::pointer::{CapturedPointerEvent, DecodeOutcome, PointerDecoder};
use buck::region::BoundingBoxTextInteractive;
use buck::pointer::Coords;
use buck::strings::{rem_last, str_ci_eq, str_contains, str_lt, str_starts_with};
use buck::toc::{calculate_optimal_layout, toc_rows, TocRow};

fn t(title: &str, artist: &str, album: &str, track: u32) -> Track {
    Track {
        path: format!("/m/{}.mp3", title),
        title: title.to_string(),
        artist: artist.to_string(),
        album: album.to_string(),
        track,
        disc: 1,
        year: 2000,
        album_artist: String::new(),
        cover: None,
    }
}

#[test]
fn elapsed_measures_from_the_last_update() {
    let mut e = Elapsed::new(100);
    assert_eq!(e.elapsed(250), 150);
    // a clock running behind the last update reads as nothing passed
    assert_eq!(e.elapsed(50), 0);
    e.update(300);
    assert_eq!(e.elapsed(320), 20);
}

#[test]
fn string_order_is_by_code_point() {
    assert!(str_lt("Abba", "abba"));
    assert!(str_lt("abc", "abd"));
    assert!(str_lt("ab", "abc"));
    assert!(!str_lt("abc", "abc"));
    assert!(!str_lt("b", "arc"));
}

#[test]
fn case_folding_covers_ascii_only() {
    assert!(str_ci_eq("AbBa", "abba"));
    assert!(!str_ci_eq("abba", "abbey"));
    assert!(str_ci_eq("", ""));
}

#[test]
fn prefix_and_substring_tests() {
    assert!(str_starts_with("select 5", "select"));
    assert!(!str_starts_with("sel", "select"));
    assert!(str_contains("xxAO: [alsa]yy", "AO: [alsa]"));
    assert!(!str_contains("AO: [pulse]", "AO: [alsa]"));
    assert_eq!(rem_last("123"), "12");
    assert_eq!(rem_last(""), "");
}

#[test]
fn the_cli_sends_ui_without_arguments_and_select_with() {
    assert_eq!(cli_payload(1), "ui");
    assert_eq!(cli_payload(2), "select");
}

#[test]
fn layout_shares_are_proportional_with_minimums() {
    assert_eq!(calculate_optimal_layout(30, 20, 40, 20), (60, 40));
    assert_eq!(calculate_optimal_layout(10, 90, 40, 25), (40, 60));
    assert_eq!(calculate_optimal_layout(0, 0, 40, 20), (40, 60));
    assert_eq!(calculate_optimal_layout(90, 10, 40, 25), (75, 25));
}

#[test]
fn toc_plans_headers_before_each_album() {
    let cat = vec![t("s1", "x", "A", 1), t("s2", "x", "A", 2), t("s3", "y", "B", 1)];
    let rows = toc_rows(&cat);
    assert_eq!(rows.len(), 5);
    match &rows[0] {
        TocRow::AlbumHeader { album, artist } => {
            assert_eq!(album, "A");
            assert_eq!(artist, "x");
        },
        _ => panic!("expected a header"),
    }
    match &rows[1] {
        TocRow::SongRow { pos, title, first, .. } => {
            assert_eq!(*pos, 1);
            assert_eq!(title, "s1");
            assert!(*first);
        },
        _ => panic!("expected a song"),
    }
    match &rows[2] {
        TocRow::SongRow { pos, first, .. } => {
            assert_eq!(*pos, 2);
            assert!(!*first);
        },
        _ => panic!("expected a song"),
    }
    match &rows[3] {
        TocRow::AlbumHeader { album, .. } => assert_eq!(album, "B"),
        _ => panic!("expected a header"),
    }
    match &rows[4] {
        TocRow::SongRow { pos, first, .. } => {
            assert_eq!(*pos, 3);
            assert!(*first);
        },
        _ => panic!("expected a song"),
    }
}

#[test]
fn the_keepalive_cycle_walks_its_four_phases() {
    let mut k = BTKeepAlive::new();
    match k.tick() {
        KeepaliveStep::Write { line, wait_secs } => {
            assert_eq!(line, "scan on\n");
            assert_eq!(wait_secs, 20);
        },
        _ => panic!("expected a write"),
    }
    match k.on_signal(KeepaliveSignal::Quiet) {
        KeepaliveStep::Write { line, wait_secs } => {
            assert_eq!(line, "scan off\n");
            assert_eq!(wait_secs, 10);
        },
        _ => panic!("expected a write"),
    }
    match k.on_signal(KeepaliveSignal::Quiet) {
        KeepaliveStep::Write { line, .. } => assert_eq!(line, "paired-devices\n"),
        _ => panic!("expected a write"),
    }
    k.on_signal(KeepaliveSignal::Quiet);
    match k.on_signal(KeepaliveSignal::Quiet) {
        KeepaliveStep::Write { line, .. } => assert_eq!(line, "scan on\n"),
        _ => panic!("expected the cycle to wrap"),
    }
    match k.on_signal(KeepaliveSignal::ScanPulse) {
        KeepaliveStep::Hold { line, hold_secs } => {
            assert_eq!(line, "scan on\n");
            assert_eq!(hold_secs, 10);
        },
        _ => panic!("expected a hold"),
    }
    assert_eq!(k.on_signal(KeepaliveSignal::Stop), KeepaliveStep::Shutdown);
}

#[test]
fn regions_debounce_repeated_taps() {
    let mut r = BoundingBoxTextInteractive::new(
        10,
        110,
        10,
        60,
        0,
        0,
        "x".to_string(),
        12,
        "BLACK".to_string(),
        "WHITE".to_string(),
        Elapsed::new(0),
    );
    let c = Coords { x: 50, y: 30 };
    // two gestures at one spot under two hundred milliseconds apart
    // register exactly one hit; from the window's edge they register again
    assert!(r.colliding_coords(&c, 1_000));
    assert!(!r.colliding_coords(&c, 1_150));
    assert!(r.colliding_coords(&c, 1_200));
    // a miss outside the rectangle
    assert!(!r.colliding_coords(&Coords { x: 500, y: 30 }, 2_000));
    // disabled regions never collide
    r.disable();
    assert!(!r.colliding_coords(&c, 3_000));
}

#[test]
fn region_drawing_commands_carry_the_geometry() {
    let r = BoundingBoxTextInteractive::new(
        10,
        110,
        20,
        60,
        3,
        4,
        "Next".to_string(),
        12,
        "BLACK".to_string(),
        "WHITE".to_string(),
        Elapsed::new(0),
    );
    match r.draw() {
        Some(DrawCmd::Text { text, size, top, left, .. }) => {
            assert_eq!(text, "Next");
            assert_eq!(size, 12);
            assert_eq!(top, 24);
            assert_eq!(left, 13);
        },
        _ => panic!("expected the region's text"),
    }
    match r.draw_over() {
        DrawCmd::ClearPart { top, left, width, height, .. } => {
            assert_eq!((top, left, width, height), (20, 10, 100, 40));
        },
        _ => panic!("expected a clearing command"),
    }
}

#[test]
fn the_decoder_rescales_and_emits_contact_gestures() {
    let mut d = PointerDecoder::new(4096, 758, 1024);
    assert!(matches!(d.decode(53, 2048), DecodeOutcome::Axis));
    assert!(matches!(d.decode(54, 1024), DecodeOutcome::Axis));
    let c = d.coords();
    assert_eq!(c.x, 379);
    assert_eq!(c.y, 256);
    match d.decode(57, -1) {
        DecodeOutcome::Gesture(CapturedPointerEvent::PointerOn(p)) => {
            assert_eq!((p.x, p.y), (379, 256));
        },
        _ => panic!("expected a press"),
    }
    match d.decode(57, 0) {
        DecodeOutcome::Gesture(CapturedPointerEvent::PointerOff(_)) => {},
        _ => panic!("expected a release"),
    }
    assert!(matches!(d.decode(99, 1), DecodeOutcome::Unknown));
}

#[test]
fn a_rangeless_decoder_takes_raw_values_with_transposed_axes() {
    let mut d = PointerDecoder::new(0, 758, 1024);
    d.decode(53, 700);
    d.decode(54, 300);
    let c = d.coords();
    assert_eq!((c.x, c.y), (300, 700));
}

#[test]
fn scale_calc_rounds_per_mille() {
    assert_eq!(scale_calc(100, 1000), 100);
    assert_eq!(scale_calc(35, 1500), 53);
    assert_eq!(scale_calc(9, 1000), 9);
}
