//! Playback and progress-reporting core of a terminal audio player.
//!
//! - [`slot`]: the playback coordinator that keeps at most one session live.
//! - [`monitor`]: turns clock readings and sink observations into progress samples.
//! - [`advance`]: the debounced auto-advance decision taken on every UI tick.
//! - [`app_state`]: the listing, selection, status line and progress the UI shows.
//! - [`listing`]: which directory entries are listed, and in what order.
//! - [`sink`]: the parts of rodio's `Sink` the library relies on.

pub mod advance;
pub mod app_state;
pub mod listing;
pub mod monitor;
pub mod sink;
pub mod slot;
