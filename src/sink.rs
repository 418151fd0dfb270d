//! Declarations of the rodio items the library drives.
//!
//! A `Sink` keeps its state behind atomics and is used through `&self`, so
//! nothing here can promise what a later query returns: the coordinator keeps
//! its own record of what it asked of the sink.

use vstd::prelude::*;

verus! {

/// rodio's output sink, held opaquely.
#[verifier::external_type_specification]
#[verifier::external_body]
pub struct ExSink(rodio::Sink);

/// Relies on rodio::Sink::play: clears the sink's pause flag.
pub assume_specification[ rodio::Sink::play ](s: &rodio::Sink);

/// Relies on rodio::Sink::pause: sets the sink's pause flag.
pub assume_specification[ rodio::Sink::pause ](s: &rodio::Sink);

/// Relies on rodio::Sink::stop: marks the sink stopped, which drops its queue.
pub assume_specification[ rodio::Sink::stop ](s: &rodio::Sink);

/// Relies on rodio::Sink::is_paused: reads the pause flag, which any holder
/// may change, so nothing is promised of the answer.
#[verifier::external_body]
pub(crate) fn sink_reports_paused(s: &rodio::Sink) -> bool {
    s.is_paused()
}

/// Relies on rodio::Sink::empty: whether the queue holds no sound at this moment.
pub assume_specification[ rodio::Sink::empty ](s: &rodio::Sink) -> bool;

} // verus!
