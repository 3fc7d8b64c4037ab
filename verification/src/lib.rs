//! Playback-control and event-coordination core of a touchscreen music
//! player for slow, partial-refresh displays.
//!
//! The library holds the decision logic: the ordered track catalog, the
//! player-control state machine, the line protocol spoken with the external
//! player process, reply coalescing, progress-bar quantization, pointer
//! gesture decoding with per-region debouncing, and the UI coordinator.
//! Process management, device I/O and drawing are left to the surrounding
//! binary, which feeds plain values in and carries effect values out.

pub mod catalog;
pub mod cli;
pub mod coalesce;
pub mod config;
pub mod draw;
pub mod elapsed;
pub mod keepalive;
pub mod messages;
pub mod order;
pub mod player;
pub mod pointer;
pub mod progress;
pub mod protocol;
pub mod region;
pub mod strings;
pub mod toc;
pub mod ui;
