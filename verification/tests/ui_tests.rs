use buck::catalog::Track;
use buck::messages::{Command, Reply};
use buck::pointer::{CapturedPointerEvent, Coords};
use buck::ui::{SessionAction, UiDraw, UiState};

fn tap(x: u32, y: u32) -> CapturedPointerEvent {
    CapturedPointerEvent::PointerOn(Coords { x, y })
}

fn track(title: &str, album: &str) -> Track {
    Track {
        path: format!("/m/{}.mp3", title),
        title: title.to_string(),
        artist: "someone".to_string(),
        album: album.to_string(),
        track: 1,
        disc: 1,
        year: 2000,
        album_artist: String::new(),
        cover: None,
    }
}

fn ui_with_track() -> UiState {
    let mut ui = UiState::new(758, 1024, 1000, false);
    ui.on_reply(Reply::TrackInfo(track("t", "a")));
    ui
}

#[test]
fn gestures_are_ignored_while_hidden() {
    let mut ui = ui_with_track();
    let fx = ui.on_gesture(tap(400, 800), 1_000);
    assert!(fx.commands.is_empty());
    assert!(fx.session.is_empty());
    assert!(fx.draws.is_empty());
    assert!(!ui.player_visible && !ui.selector_visible);
}

#[test]
fn the_ui_verb_opens_the_main_player() {
    let mut ui = ui_with_track();
    let fx = ui.on_socket("ui");
    assert!(ui.player_visible);
    assert_eq!(fx.commands, vec![Command::UiOpened]);
    assert_eq!(
        fx.session,
        vec![SessionAction::EndThread, SessionAction::Grab, SessionAction::StartThread]
    );
    assert_eq!(
        fx.draws,
        vec![
            UiDraw::Song { skip_album_art: false },
            UiDraw::TwoState { paused: true },
            UiDraw::ProgressRestore { upto: 0 },
        ]
    );
}

#[test]
fn the_ui_verb_needs_a_known_track() {
    let mut ui = UiState::new(758, 1024, 1000, false);
    let fx = ui.on_socket("ui");
    assert!(!ui.player_visible);
    assert!(fx.commands.is_empty() && fx.session.is_empty() && fx.draws.is_empty());
}

#[test]
fn unknown_payloads_are_discarded() {
    let mut ui = ui_with_track();
    let fx = ui.on_socket("reboot");
    assert!(!ui.player_visible && !ui.selector_visible);
    assert!(fx.commands.is_empty() && fx.session.is_empty() && fx.draws.is_empty());
}

#[test]
fn transport_taps_issue_their_commands() {
    let mut ui = ui_with_track();
    ui.on_socket("ui");
    // the play/pause face
    let fx = ui.on_gesture(tap(380, 800), 1_000);
    assert_eq!(fx.commands, vec![Command::Pause]);
    // the next control
    let fx = ui.on_gesture(tap(700, 800), 2_000);
    assert_eq!(fx.commands, vec![Command::Next]);
    // the previous control
    let fx = ui.on_gesture(tap(20, 800), 3_000);
    assert_eq!(fx.commands, vec![Command::Prev]);
    // the seek controls
    let fx = ui.on_gesture(tap(300, 800), 4_000);
    assert_eq!(fx.commands, vec![Command::SeekBackward]);
    let fx = ui.on_gesture(tap(430, 800), 5_000);
    assert_eq!(fx.commands, vec![Command::SeekForward]);
}

#[test]
fn the_volume_strip_maps_the_tap_position() {
    let mut ui = ui_with_track();
    ui.on_socket("ui");
    let fx = ui.on_gesture(tap(380, 100), 1_000);
    assert_eq!(fx.commands, vec![Command::SetVol(50)]);
    // taps left of the strip's live range pin to zero
    let fx = ui.on_gesture(tap(10, 100), 2_000);
    assert_eq!(fx.commands, vec![Command::SetVol(0)]);
}

#[test]
fn disabled_scrub_controls_never_hit() {
    let mut ui = UiState::new(758, 1024, 1000, true);
    ui.on_reply(Reply::TrackInfo(track("t", "a")));
    ui.on_socket("ui");
    // a tap on the seek-back rectangle falls through to nothing
    let fx = ui.on_gesture(tap(300, 800), 1_000);
    assert!(fx.commands.is_empty());
}

#[test]
fn close_hides_the_player_and_frees_the_input() {
    let mut ui = ui_with_track();
    ui.on_socket("ui");
    let fx = ui.on_gesture(tap(700, 960), 1_000);
    assert_eq!(fx.commands, vec![Command::UiHidden]);
    assert!(!ui.player_visible);
    assert_eq!(
        fx.session,
        vec![SessionAction::EndThread, SessionAction::Ungrab, SessionAction::StartThread]
    );
}

#[test]
fn two_taps_inside_the_debounce_window_register_once() {
    let mut ui = ui_with_track();
    ui.on_socket("ui");
    let fx = ui.on_gesture(tap(700, 800), 1_000);
    assert_eq!(fx.commands, vec![Command::Next]);
    // the same spot again within two hundred milliseconds
    let fx = ui.on_gesture(tap(700, 800), 1_100);
    assert!(fx.commands.is_empty());
    // and once the window has passed
    let fx = ui.on_gesture(tap(700, 800), 1_200);
    assert_eq!(fx.commands, vec![Command::Next]);
}

#[test]
fn selector_confirm_with_digits_selects_the_track() {
    let mut ui = ui_with_track();
    let fx = ui.on_socket("select");
    assert!(ui.selector_visible);
    assert_eq!(
        fx.draws,
        vec![UiDraw::SelectorChrome, UiDraw::SelectorDisplay { first_run: true }]
    );
    // the key labeled 1
    let fx = ui.on_gesture(tap(60, 800), 1_000);
    assert_eq!(fx.draws, vec![UiDraw::SelectorDisplay { first_run: false }]);
    // the key labeled 2
    ui.on_gesture(tap(130, 800), 2_000);
    // confirm: twelve entered selects the twelfth track, index eleven
    let fx = ui.on_gesture(tap(700, 800), 3_000);
    assert_eq!(fx.commands, vec![Command::SetTrack(11)]);
    assert!(!ui.selector_visible);
}

#[test]
fn selector_confirm_without_digits_issues_nothing() {
    // entering the selector and confirming an empty buffer sends no
    // track choice; the screen falls back to hidden
    let mut ui = ui_with_track();
    ui.on_socket("select");
    let fx = ui.on_gesture(tap(700, 800), 1_000);
    assert!(fx.commands.is_empty());
    assert!(!ui.selector_visible);
    assert!(!ui.player_visible);
    assert_eq!(
        fx.session,
        vec![SessionAction::EndThread, SessionAction::Ungrab, SessionAction::StartThread]
    );
}

#[test]
fn the_zero_key_enters_zero() {
    // the key labeled 0 stands tenth and enters the digit zero
    let mut ui = ui_with_track();
    ui.on_socket("select");
    ui.on_gesture(tap(60, 800), 1_000);
    ui.on_gesture(tap(550, 800), 2_000);
    let fx = ui.on_gesture(tap(700, 800), 3_000);
    assert_eq!(fx.commands, vec![Command::SetTrack(9)]);
}

#[test]
fn backspace_removes_the_last_digit() {
    let mut ui = ui_with_track();
    ui.on_socket("select");
    ui.on_gesture(tap(60, 800), 1_000);
    ui.on_gesture(tap(130, 800), 2_000);
    let fx = ui.on_gesture(tap(600, 800), 3_000);
    assert_eq!(fx.draws, vec![UiDraw::SelectorDisplay { first_run: false }]);
    let fx = ui.on_gesture(tap(700, 800), 4_000);
    assert_eq!(fx.commands, vec![Command::SetTrack(0)]);
}

#[test]
fn entering_the_selector_resets_the_buffer() {
    let mut ui = ui_with_track();
    ui.on_socket("select");
    ui.on_gesture(tap(60, 800), 1_000);
    // leave through confirm, then reopen: the old digit is gone
    ui.on_gesture(tap(700, 800), 2_000);
    ui.on_socket("select");
    let fx = ui.on_gesture(tap(700, 800), 3_000);
    assert!(fx.commands.is_empty());
}

#[test]
fn track_identity_replies_ask_for_tags() {
    let mut ui = UiState::new(758, 1024, 1000, false);
    let fx = ui.on_reply(Reply::CurrentTrack(4));
    assert_eq!(fx.commands, vec![Command::GetTrackInfo(4)]);
    let fx = ui.on_reply(Reply::NewTrack(2));
    assert_eq!(fx.commands, vec![Command::GetTrackInfo(2)]);
}

#[test]
fn track_tags_redraw_only_while_visible() {
    let mut ui = UiState::new(758, 1024, 1000, false);
    let fx = ui.on_reply(Reply::TrackInfo(track("t1", "a1")));
    assert!(fx.draws.is_empty());
    ui.on_socket("ui");
    // the pending album change still counts as new
    let fx = ui.on_reply(Reply::TrackInfo(track("t2", "a1")));
    assert_eq!(fx.draws, vec![UiDraw::Song { skip_album_art: false }]);
    // an unchanged album skips the album art
    let fx = ui.on_reply(Reply::TrackInfo(track("t3", "a1")));
    assert_eq!(fx.draws, vec![UiDraw::Song { skip_album_art: true }]);
    // a new album repaints it
    let fx = ui.on_reply(Reply::TrackInfo(track("t4", "a2")));
    assert_eq!(fx.draws, vec![UiDraw::Song { skip_album_art: false }]);
}

#[test]
fn pause_and_volume_replies_repaint_while_visible() {
    let mut ui = ui_with_track();
    let fx = ui.on_reply(Reply::Paused(false));
    assert!(fx.draws.is_empty());
    ui.on_socket("ui");
    let fx = ui.on_reply(Reply::Paused(true));
    assert_eq!(fx.draws, vec![UiDraw::TwoState { paused: true }]);
    let fx = ui.on_reply(Reply::Vol(30));
    assert_eq!(fx.draws, vec![UiDraw::VolumeText { volume: 30 }]);
}

#[test]
fn position_replies_repaint_spans_only_while_visible() {
    let mut ui = ui_with_track();
    ui.on_reply(Reply::Length(100_000));
    // hidden: the cursor still moves, nothing is drawn
    let fx = ui.on_reply(Reply::Pos(50_000));
    assert!(fx.draws.is_empty());
    ui.on_socket("ui");
    let fx = ui.on_reply(Reply::Pos(60_000));
    assert_eq!(fx.draws.len(), 1);
    match fx.draws[0] {
        UiDraw::Progress { span } => {
            // sixty-three chunks of twelve pixels across the bar
            assert_eq!(span.start, 31 * 12);
            assert_eq!(span.end, 37 * 12);
            assert!(!span.backward);
        },
        _ => panic!("expected a progress span"),
    }
}

#[test]
fn startup_queries_cover_track_length_and_volume() {
    let ui = UiState::new(758, 1024, 1000, false);
    assert_eq!(
        ui.initial_commands(),
        vec![Command::GetCurrentTrack, Command::GetCurrentTrackLength, Command::GetVol]
    );
}

#[test]
fn a_zero_entry_confirms_to_nothing() {
    // the buffer "0" names no one-based track, so confirm stays quiet
    let mut ui = ui_with_track();
    ui.on_socket("select");
    ui.on_gesture(tap(550, 800), 1_000);
    let fx = ui.on_gesture(tap(700, 800), 2_000);
    assert!(fx.commands.is_empty());
    assert!(!ui.selector_visible);
}

#[test]
fn an_overflowing_entry_confirms_to_nothing() {
    // ten nines exceed the index type and count as unusable input
    let mut ui = ui_with_track();
    ui.on_socket("select");
    for k in 0..10u64 {
        // the key labeled 9
        ui.on_gesture(tap(500, 800), 1_000 + 300 * k);
    }
    let fx = ui.on_gesture(tap(700, 800), 10_000);
    assert!(fx.commands.is_empty());
}
