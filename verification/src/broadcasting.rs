//! The frame broadcaster's bookkeeping: per-subscriber records, and the rule
//! for fanning a frame out (a subscriber whose queue took the frame is kept, one
//! whose queue was full is dropped, and the drops are counted).
use std::sync::atomic::AtomicU64;
use std::time::Instant;
use vstd::prelude::*;

verus! {

#[verifier::external_type_specification]
#[verifier::external_body]
pub struct ExInstant(Instant);

/// The current time (`Instant::now`); nothing is known of its value.
#[verifier::external_body]
fn now() -> Instant {
    Instant::now()
}

/// Why the broadcaster could not run.
#[derive(Debug)]
pub enum BroadcasterError {
    /// It was started without a channel to take frames from.
    NoFrameReceiverError(),
}

/// What the broadcaster keeps about a subscriber: when it subscribed, and
/// counters of frames sent to it and dropped for it.
pub struct SubscriberMetadata {
    _connected_at: Instant,
    _frames_sent: AtomicU64,
    _frames_dropped: AtomicU64,
}

impl SubscriberMetadata {
    /// The record of a subscriber that joins now, with both counters at zero.
    pub fn new() -> Self {
        SubscriberMetadata {
            _connected_at: now(),
            _frames_sent: AtomicU64::new(0),
            _frames_dropped: AtomicU64::new(0),
        }
    }
}

/// One frame's fan-out over the subscribers: which to keep, and how many were dropped.
pub struct FrameFanOut {
    dropped: usize,
}

impl FrameFanOut {
    /// Subscribers dropped so far for this frame.
    pub closed spec fn dropped_spec(&self) -> nat {
        self.dropped as nat
    }

    /// A fan-out that has dropped no subscriber yet.
    pub fn new() -> (r: Self)
        ensures
            r.dropped_spec() == 0,
    {
        FrameFanOut { dropped: 0 }
    }

    /// Given whether the frame could be queued for a subscriber, says whether the
    /// subscriber is kept; a dropped one is counted (the count stops at
    /// `usize::MAX`).
    pub fn keep_subscriber(&mut self, sent: bool) -> (keep: bool)
        ensures
            keep == sent,
            final(self).dropped_spec() == (if sent {
                old(self).dropped_spec() as int
            } else {
                vstd::math::min(old(self).dropped_spec() + 1int, usize::MAX as int)
            }),
    {
        if !sent {
            self.dropped = self.dropped.saturating_add(1);
        }
        sent
    }

    /// How many subscribers were dropped for this frame.
    pub fn dropped(&self) -> (r: usize)
        ensures
            r == self.dropped_spec(),
    {
        self.dropped
    }
}

} // verus!
