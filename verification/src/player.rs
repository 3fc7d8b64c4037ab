//! The player-control actor: it owns the playback position, volume and
//! pause state, decides on every command and on every tick what the
//! external player process must be told, and answers queries over the
//! reply channel. The surrounding loop performs the returned actions and
//! feeds process events back in.

use vstd::prelude::*;

use crate::catalog::Track;
use crate::messages::{Command, PlayerAction, Reply};

verus! {

/// The next index, wrapping past the end.
pub open spec fn next_index(i: u32, len: u32) -> u32
    recommends
        len >= 1,
        i < len,
{
    if i + 1 >= len {
        0
    } else {
        (i + 1) as u32
    }
}

/// The previous index, wrapping past zero.
pub open spec fn prev_index(i: u32, len: u32) -> u32
    recommends
        len >= 1,
        i < len,
{
    if i == 0 {
        (len - 1) as u32
    } else {
        (i - 1) as u32
    }
}

/// Index wraparound: stepping forward from the last track reaches the
/// first, stepping backward from the first reaches the last, on any
/// catalog of at least one track.
pub proof fn lemma_index_wraparound(len: u32)
    requires
        len >= 1,
    ensures
        next_index((len - 1) as u32, len) == 0,
        prev_index(0, len) == len - 1,
{
}

/// One actor step: the actions to perform, then the replies to send, each
/// in order.
pub struct ActorStep {
    pub actions: Vec<PlayerAction>,
    pub replies: Vec<Reply>,
}

/// The player-control actor's state.
pub struct PlayerActor {
    catalog: Vec<Track>,
    current: u32,
    volume: u32,
    paused: bool,
    length_ms: u64,
    last_pos_ms: u64,
    first_spawn: bool,
    bt_only: bool,
}

impl PlayerActor {
    pub closed spec fn catalog(&self) -> Seq<Track> {
        self.catalog@
    }

    pub closed spec fn current(&self) -> u32 {
        self.current
    }

    pub closed spec fn volume(&self) -> u32 {
        self.volume
    }

    pub closed spec fn paused(&self) -> bool {
        self.paused
    }

    pub closed spec fn length_ms(&self) -> u64 {
        self.length_ms
    }

    pub closed spec fn last_pos_ms(&self) -> u64 {
        self.last_pos_ms
    }

    pub closed spec fn first_spawn(&self) -> bool {
        self.first_spawn
    }

    pub closed spec fn bt_only(&self) -> bool {
        self.bt_only
    }

    /// A catalog is present and the playback position points into it.
    pub open spec fn wf(&self) -> bool {
        1 <= self.catalog().len() <= u32::MAX && self.current() < self.catalog().len()
    }

    /// An actor over `catalog`, starting at the first track.
    pub fn new(catalog: Vec<Track>, initial_volume: u32, bt_only: bool) -> (a: PlayerActor)
        requires
            1 <= catalog@.len() <= u32::MAX,
        ensures
            a.wf(),
            a.catalog() == catalog@,
            a.current() == 0,
            a.volume() == initial_volume,
            !a.paused(),
            a.length_ms() == 0,
            a.last_pos_ms() == 0,
            a.first_spawn(),
            a.bt_only() == bt_only,
    {
        PlayerActor {
            catalog,
            current: 0,
            volume: initial_volume,
            paused: false,
            length_ms: 0,
            last_pos_ms: 0,
            first_spawn: true,
            bt_only,
        }
    }

    /// The actor's first step: report the initial pause state and ask for
    /// the first session.
    pub fn initial_step(&self) -> (s: ActorStep)
        requires
            self.wf(),
        ensures
            s.actions@ =~= seq![PlayerAction::Respawn(self.current())],
            s.replies@ =~= seq![Reply::Paused(false)],
    {
        let mut actions: Vec<PlayerAction> = Vec::new();
        actions.push(PlayerAction::Respawn(self.current));
        let mut replies: Vec<Reply> = Vec::new();
        replies.push(Reply::Paused(false));
        ActorStep { actions, replies }
    }

    /// A session for the current track came up and reported its length:
    /// announce the track and the length. The very first session starts
    /// paused; every later one plays at once.
    pub fn on_spawned(&mut self, length_ms: u64) -> (s: ActorStep)
        requires
            old(self).wf(),
        ensures
            final(self).wf(),
            final(self).catalog() == old(self).catalog(),
            final(self).current() == old(self).current(),
            final(self).volume() == old(self).volume(),
            final(self).length_ms() == length_ms,
            final(self).last_pos_ms() == old(self).last_pos_ms(),
            final(self).bt_only() == old(self).bt_only(),
            !final(self).first_spawn(),
            old(self).first_spawn() ==> final(self).paused() && s.actions@ =~= seq![
                PlayerAction::WritePause,
            ] && s.replies@ =~= seq![
                Reply::NewTrack(old(self).current()),
                Reply::Length(length_ms),
                Reply::Paused(true),
            ],
            !old(self).first_spawn() ==> final(self).paused() == old(self).paused() && s.actions@
                =~= Seq::<PlayerAction>::empty() && s.replies@ =~= seq![
                Reply::NewTrack(old(self).current()),
                Reply::Length(length_ms),
            ],
    {
        self.length_ms = length_ms;
        let mut actions: Vec<PlayerAction> = Vec::new();
        let mut replies: Vec<Reply> = Vec::new();
        replies.push(Reply::NewTrack(self.current));
        replies.push(Reply::Length(length_ms));
        if self.first_spawn {
            self.paused = true;
            replies.push(Reply::Paused(true));
            actions.push(PlayerAction::WritePause);
        }
        self.first_spawn = false;
        ActorStep { actions, replies }
    }

    /// The active process ended on its own: move to the next track, as if
    /// `Next` had been commanded, and ask for a new session.
    pub fn on_process_exited(&mut self) -> (s: ActorStep)
        requires
            old(self).wf(),
        ensures
            final(self).wf(),
            final(self).catalog() == old(self).catalog(),
            final(self).current() == next_index(
                old(self).current(),
                old(self).catalog().len() as u32,
            ),
            final(self).volume() == old(self).volume(),
            final(self).paused() == old(self).paused(),
            final(self).length_ms() == old(self).length_ms(),
            final(self).last_pos_ms() == old(self).last_pos_ms(),
            final(self).first_spawn() == old(self).first_spawn(),
            final(self).bt_only() == old(self).bt_only(),
            s.actions@ =~= seq![PlayerAction::Respawn(final(self).current())],
            s.replies@ =~= Seq::<Reply>::empty(),
    {
        let len = self.catalog.len() as u32;
        self.current = if self.current + 1 >= len {
            0
        } else {
            self.current + 1
        };
        let mut actions: Vec<PlayerAction> = Vec::new();
        actions.push(PlayerAction::Respawn(self.current));
        ActorStep { actions, replies: Vec::new() }
    }

    /// Should the loop ask the process for its position this tick?
    pub fn should_poll_position(&self) -> (r: bool)
        ensures
            r == !self.paused(),
    {
        !self.paused
    }

    /// The process answered a position query.
    pub fn on_position(&mut self, pos_ms: u64) -> (s: ActorStep)
        requires
            old(self).wf(),
        ensures
            final(self).wf(),
            final(self).catalog() == old(self).catalog(),
            final(self).current() == old(self).current(),
            final(self).volume() == old(self).volume(),
            final(self).paused() == old(self).paused(),
            final(self).length_ms() == old(self).length_ms(),
            final(self).last_pos_ms() == pos_ms,
            final(self).first_spawn() == old(self).first_spawn(),
            final(self).bt_only() == old(self).bt_only(),
            s.actions@ =~= Seq::<PlayerAction>::empty(),
            s.replies@ =~= seq![Reply::Pos(pos_ms)],
    {
        self.last_pos_ms = pos_ms;
        let mut replies: Vec<Reply> = Vec::new();
        replies.push(Reply::Pos(pos_ms));
        ActorStep { actions: Vec::new(), replies }
    }

    /// Decide one command. Every state change and every effect is listed
    /// per command below; the catalog never changes.
    pub fn handle_command(&mut self, cmd: Command) -> (s: ActorStep)
        requires
            old(self).wf(),
            cmd matches Command::GetTrackInfo(t) ==> (t as int) < old(self).catalog().len(),
        ensures
            final(self).wf(),
            final(self).catalog() == old(self).catalog(),
            final(self).length_ms() == old(self).length_ms(),
            final(self).last_pos_ms() == old(self).last_pos_ms(),
            final(self).first_spawn() == old(self).first_spawn(),
            final(self).bt_only() == old(self).bt_only(),
            // pause toggles the flag and forwards it
            cmd is Pause ==> final(self).paused() == !old(self).paused() && final(self).current()
                == old(self).current() && final(self).volume() == old(self).volume() && s.actions@
                =~= seq![PlayerAction::WritePause] && s.replies@ =~= seq![
                Reply::Paused(!old(self).paused()),
            ],
            // seeking resumes playback
            cmd is SeekForward ==> final(self).paused() == false && final(self).current() == old(self).current() && final(self).volume() == old(self).volume() && s.actions@ =~= (if old(self).bt_only() {
                seq![PlayerAction::KeepaliveScanPulse, PlayerAction::WriteSeekRelative(5)]
            } else {
                seq![PlayerAction::WriteSeekRelative(5)]
            }) && s.replies@ =~= seq![Reply::Paused(false)],
            cmd is SeekBackward ==> final(self).paused() == false && final(self).current() == old(self).current() && final(self).volume() == old(self).volume() && s.actions@ =~= (if old(self).bt_only() {
                seq![PlayerAction::KeepaliveScanPulse, PlayerAction::WriteSeekRelative(-5i32)]
            } else {
                seq![PlayerAction::WriteSeekRelative(-5i32)]
            }) && s.replies@ =~= seq![Reply::Paused(false)],
            // track stepping wraps around and respawns
            cmd is Next ==> final(self).current() == next_index(
                old(self).current(),
                old(self).catalog().len() as u32,
            ) && final(self).paused() == old(self).paused() && final(self).volume() == old(self).volume() && s.actions@ =~= seq![PlayerAction::Respawn(final(self).current())]
                && s.replies@ =~= Seq::<Reply>::empty(),
            cmd is Prev ==> final(self).current() == prev_index(
                old(self).current(),
                old(self).catalog().len() as u32,
            ) && final(self).paused() == old(self).paused() && final(self).volume() == old(self).volume() && s.actions@ =~= seq![PlayerAction::Respawn(final(self).current())]
                && s.replies@ =~= Seq::<Reply>::empty(),
            // volume changes resume playback and echo the volume
            cmd matches Command::SetVol(v) ==> final(self).volume() == v && final(self).paused()
                == false && final(self).current() == old(self).current() && s.actions@ =~= seq![
                PlayerAction::WriteVolume(v),
            ] && s.replies@ =~= seq![Reply::Paused(false), Reply::Vol(v)],
            // an explicit track choice: in range it respawns, out of range
            // it is a reported no-op
            cmd matches Command::SetTrack(t) ==> (((t as int) < old(self).catalog().len())
                ==> (final(self).current() == t && final(self).paused() == old(self).paused()
                && final(self).volume() == old(self).volume() && s.actions@ =~= seq![
                PlayerAction::Respawn(t),
            ] && s.replies@ =~= Seq::<Reply>::empty())) && (((t as int) >= old(self).catalog().len()) ==> (*final(self) == *old(self) && s.actions@ =~= seq![
                PlayerAction::ReportOutOfRange,
            ] && s.replies@ =~= Seq::<Reply>::empty())),
            // queries answer without touching state or process
            cmd is GetVol ==> *final(self) == *old(self) && s.actions@ =~= Seq::<
                PlayerAction,
            >::empty() && s.replies@ =~= seq![Reply::Vol(old(self).volume())],
            cmd is GetCurrentTrack ==> *final(self) == *old(self) && s.actions@ =~= Seq::<
                PlayerAction,
            >::empty() && s.replies@ =~= seq![Reply::CurrentTrack(old(self).current())],
            cmd is GetCurrentTrackLength ==> *final(self) == *old(self) && s.actions@ =~= Seq::<
                PlayerAction,
            >::empty() && s.replies@ =~= seq![Reply::Length(old(self).length_ms())],
            cmd matches Command::GetTrackInfo(t) ==> *final(self) == *old(self) && s.actions@ =~= Seq::<
                PlayerAction,
            >::empty() && s.replies@.len() == 1 && (s.replies@[0] matches Reply::TrackInfo(tr)
                && tr@ == old(self).catalog()[t as int]@),
            // visibility hooks drive the keepalive helper; opening while
            // paused restarts the session at the remembered position
            cmd is UiOpened ==> final(self).paused() == old(self).paused() && final(self).current()
                == old(self).current() && final(self).volume() == old(self).volume() && s.replies@
                =~= Seq::<Reply>::empty() && s.actions@ =~= (if old(self).bt_only() {
                if old(self).paused() {
                    seq![
                        PlayerAction::AcquireKeepalive,
                        PlayerAction::Respawn(old(self).current()),
                        PlayerAction::WriteSeekAbsolute(old(self).last_pos_ms()),
                        PlayerAction::WritePause,
                    ]
                } else {
                    seq![PlayerAction::AcquireKeepalive]
                }
            } else {
                Seq::<PlayerAction>::empty()
            }),
            cmd is UiHidden ==> *final(self) == *old(self) && s.replies@ =~= Seq::<Reply>::empty()
                && s.actions@ =~= (if old(self).bt_only() && old(self).paused() {
                seq![PlayerAction::ReleaseKeepalive]
            } else {
                Seq::<PlayerAction>::empty()
            }),
    {
        let mut actions: Vec<PlayerAction> = Vec::new();
        let mut replies: Vec<Reply> = Vec::new();
        let len = self.catalog.len() as u32;
        match cmd {
            Command::Pause => {
                self.paused = !self.paused;
                replies.push(Reply::Paused(self.paused));
                actions.push(PlayerAction::WritePause);
            },
            Command::SeekForward => {
                if self.bt_only {
                    actions.push(PlayerAction::KeepaliveScanPulse);
                }
                self.paused = false;
                replies.push(Reply::Paused(false));
                actions.push(PlayerAction::WriteSeekRelative(5));
            },
            Command::SeekBackward => {
                if self.bt_only {
                    actions.push(PlayerAction::KeepaliveScanPulse);
                }
                self.paused = false;
                replies.push(Reply::Paused(false));
                actions.push(PlayerAction::WriteSeekRelative(-5));
            },
            Command::Next => {
                self.current = if self.current + 1 >= len {
                    0
                } else {
                    self.current + 1
                };
                actions.push(PlayerAction::Respawn(self.current));
            },
            Command::Prev => {
                self.current = if self.current == 0 {
                    len - 1
                } else {
                    self.current - 1
                };
                actions.push(PlayerAction::Respawn(self.current));
            },
            Command::SetVol(v) => {
                self.volume = v;
                self.paused = false;
                replies.push(Reply::Paused(false));
                actions.push(PlayerAction::WriteVolume(v));
                replies.push(Reply::Vol(v));
            },
            Command::SetTrack(t) => {
                if t < len {
                    self.current = t;
                    actions.push(PlayerAction::Respawn(t));
                } else {
                    actions.push(PlayerAction::ReportOutOfRange);
                }
            },
            Command::GetVol => {
                replies.push(Reply::Vol(self.volume));
            },
            Command::GetCurrentTrack => {
                replies.push(Reply::CurrentTrack(self.current));
            },
            Command::GetCurrentTrackLength => {
                replies.push(Reply::Length(self.length_ms));
            },
            Command::GetTrackInfo(t) => {
                replies.push(Reply::TrackInfo(self.catalog[t as usize].duplicate()));
            },
            Command::UiOpened => {
                if self.bt_only {
                    actions.push(PlayerAction::AcquireKeepalive);
                    if self.paused {
                        actions.push(PlayerAction::Respawn(self.current));
                        actions.push(PlayerAction::WriteSeekAbsolute(self.last_pos_ms));
                        actions.push(PlayerAction::WritePause);
                    }
                }
            },
            Command::UiHidden => {
                if self.bt_only && self.paused {
                    actions.push(PlayerAction::ReleaseKeepalive);
                }
            },
        }
        ActorStep { actions, replies }
    }
}

} // verus!
