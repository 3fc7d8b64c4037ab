use buck::catalog::Track;
use buck::messages::{Command, PlayerAction, Reply};
use buck::player::PlayerActor;

fn t(n: u32) -> Track {
    Track {
        path: format!("/m/{}.mp3", n),
        title: format!("t{}", n),
        artist: "a".to_string(),
        album: "b".to_string(),
        track: n,
        disc: 1,
        year: 2000,
        album_artist: String::new(),
        cover: None,
    }
}

fn catalog(n: u32) -> Vec<Track> {
    (0..n).map(t).collect()
}

fn current_of(actor: &mut PlayerActor) -> u32 {
    let step = actor.handle_command(Command::GetCurrentTrack);
    match step.replies[0] {
        Reply::CurrentTrack(i) => i,
        _ => panic!("expected the current track"),
    }
}

#[test]
fn next_wraps_from_last_to_first() {
    let mut actor = PlayerActor::new(catalog(3), 60, false);
    actor.handle_command(Command::SetTrack(2));
    let step = actor.handle_command(Command::Next);
    assert_eq!(step.actions, vec![PlayerAction::Respawn(0)]);
    assert_eq!(current_of(&mut actor), 0);
}

#[test]
fn prev_wraps_from_first_to_last() {
    let mut actor = PlayerActor::new(catalog(3), 60, false);
    let step = actor.handle_command(Command::Prev);
    assert_eq!(step.actions, vec![PlayerAction::Respawn(2)]);
    assert_eq!(current_of(&mut actor), 2);
}

#[test]
fn set_track_out_of_range_is_a_reported_no_op() {
    // catalog of twelve; choosing track twenty restarts nothing
    let mut actor = PlayerActor::new(catalog(12), 60, false);
    let step = actor.handle_command(Command::SetTrack(20));
    assert_eq!(step.actions, vec![PlayerAction::ReportOutOfRange]);
    assert!(step.replies.is_empty());
    assert_eq!(current_of(&mut actor), 0);
}

#[test]
fn process_exit_auto_advances() {
    // playing index three of five; the process ends on its own
    let mut actor = PlayerActor::new(catalog(5), 60, false);
    actor.handle_command(Command::SetTrack(3));
    let step = actor.on_process_exited();
    assert_eq!(step.actions, vec![PlayerAction::Respawn(4)]);
    assert!(step.replies.is_empty());
    assert_eq!(current_of(&mut actor), 4);
}

#[test]
fn first_session_starts_paused_later_ones_play() {
    let mut actor = PlayerActor::new(catalog(2), 60, false);
    let s0 = actor.initial_step();
    assert_eq!(s0.actions, vec![PlayerAction::Respawn(0)]);
    assert_eq!(s0.replies, vec![Reply::Paused(false)]);
    let s1 = actor.on_spawned(90_000);
    assert_eq!(
        s1.replies,
        vec![Reply::NewTrack(0), Reply::Length(90_000), Reply::Paused(true)]
    );
    assert_eq!(s1.actions, vec![PlayerAction::WritePause]);
    // a later session announces itself without pausing
    actor.handle_command(Command::Next);
    let s2 = actor.on_spawned(80_000);
    assert_eq!(s2.replies, vec![Reply::NewTrack(1), Reply::Length(80_000)]);
    assert!(s2.actions.is_empty());
}

#[test]
fn pause_toggles_and_forwards() {
    let mut actor = PlayerActor::new(catalog(2), 60, false);
    let s = actor.handle_command(Command::Pause);
    assert_eq!(s.replies, vec![Reply::Paused(true)]);
    assert_eq!(s.actions, vec![PlayerAction::WritePause]);
    let s2 = actor.handle_command(Command::Pause);
    assert_eq!(s2.replies, vec![Reply::Paused(false)]);
}

#[test]
fn seeking_resumes_playback() {
    let mut actor = PlayerActor::new(catalog(2), 60, false);
    actor.handle_command(Command::Pause);
    let s = actor.handle_command(Command::SeekForward);
    assert_eq!(s.replies, vec![Reply::Paused(false)]);
    assert_eq!(s.actions, vec![PlayerAction::WriteSeekRelative(5)]);
    let s2 = actor.handle_command(Command::SeekBackward);
    assert_eq!(s2.actions, vec![PlayerAction::WriteSeekRelative(-5)]);
}

#[test]
fn volume_echoes_and_resumes() {
    let mut actor = PlayerActor::new(catalog(2), 60, false);
    actor.handle_command(Command::Pause);
    let s = actor.handle_command(Command::SetVol(80));
    assert_eq!(s.replies, vec![Reply::Paused(false), Reply::Vol(80)]);
    assert_eq!(s.actions, vec![PlayerAction::WriteVolume(80)]);
    let q = actor.handle_command(Command::GetVol);
    assert_eq!(q.replies, vec![Reply::Vol(80)]);
}

#[test]
fn queries_answer_without_actions() {
    let mut actor = PlayerActor::new(catalog(3), 60, false);
    actor.on_spawned(45_000);
    let s = actor.handle_command(Command::GetCurrentTrackLength);
    assert_eq!(s.replies, vec![Reply::Length(45_000)]);
    assert!(s.actions.is_empty());
    let info = actor.handle_command(Command::GetTrackInfo(2));
    match &info.replies[0] {
        Reply::TrackInfo(tr) => assert_eq!(tr.title, "t2"),
        _ => panic!("expected track tags"),
    }
}

#[test]
fn position_polling_follows_the_pause_flag() {
    let mut actor = PlayerActor::new(catalog(2), 60, false);
    assert!(actor.should_poll_position());
    actor.handle_command(Command::Pause);
    assert!(!actor.should_poll_position());
    actor.handle_command(Command::Pause);
    let s = actor.on_position(12_345);
    assert_eq!(s.replies, vec![Reply::Pos(12_345)]);
}

#[test]
fn keepalive_actions_follow_visibility_when_bt_only() {
    let mut actor = PlayerActor::new(catalog(2), 60, true);
    actor.handle_command(Command::Pause);
    actor.on_position(30_000);
    let s = actor.handle_command(Command::UiOpened);
    assert_eq!(
        s.actions,
        vec![
            PlayerAction::AcquireKeepalive,
            PlayerAction::Respawn(0),
            PlayerAction::WriteSeekAbsolute(30_000),
            PlayerAction::WritePause,
        ]
    );
    let h = actor.handle_command(Command::UiHidden);
    assert_eq!(h.actions, vec![PlayerAction::ReleaseKeepalive]);
}
