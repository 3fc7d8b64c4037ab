//! The two message directions of the player-control actor: commands
//! flowing in, replies flowing out. Times are in milliseconds.

use vstd::prelude::*;

use crate::catalog::Track;

verus! {

/// A command into the player-control actor.
#[derive(Debug, PartialEq, Clone, Copy)]
pub enum Command {
    Pause,
    SeekForward,
    SeekBackward,
    Next,
    Prev,
    SetVol(u32),
    SetTrack(u32),
    GetVol,
    GetCurrentTrack,
    GetCurrentTrackLength,
    GetTrackInfo(u32),
    UiHidden,
    UiOpened,
}

/// A reply out of the player-control actor.
#[derive(Debug, PartialEq, Clone)]
pub enum Reply {
    CurrentTrack(u32),
    NewTrack(u32),
    TrackInfo(Track),
    Vol(u32),
    Length(u64),
    Pos(u64),
    Paused(bool),
}

/// What the actor asks its surroundings to do: lines written to the
/// player process, session replacement, and keepalive handling.
#[derive(Debug, PartialEq, Clone, Copy)]
pub enum PlayerAction {
    /// write "pause" to the process
    WritePause,
    /// write a relative seek of the given seconds
    WriteSeekRelative(i32),
    /// write an absolute seek to the given millisecond position
    WriteSeekAbsolute(u64),
    /// write a volume change
    WriteVolume(u32),
    /// tear the session down and spawn one for the track at the index
    Respawn(u32),
    /// acquire the audio-keepalive helper
    AcquireKeepalive,
    /// release the audio-keepalive helper
    ReleaseKeepalive,
    /// ask the keepalive helper for a short scan pulse
    KeepaliveScanPulse,
    /// report a rejected out-of-range track index; a no-op otherwise
    ReportOutOfRange,
}

} // verus!
