//! Points in time and the spans between them.

use vstd::prelude::*;

verus! {

/// A point in time, in nanoseconds since the origin of the session's clock.
#[derive(Debug, Clone, Copy, PartialEq, Eq, Hash, Structural)]
pub struct Instant {
    pub nanos: u64,
}

/// A span of time in nanoseconds.
#[derive(Debug, Clone, Copy, PartialEq, Eq, Hash, Structural)]
pub struct Duration {
    pub nanos: u64,
}

/// How often cleanup is due, in milliseconds.
pub const CLEANUP_INTERVAL_MILLIS: u64 = 10_000;

/// Time between regular receiver reports of video, in milliseconds.
pub const RR_INTERVAL_VIDEO_MILLIS: u64 = 1_000;

/// Time between regular receiver reports of audio, in milliseconds.
pub const RR_INTERVAL_AUDIO_MILLIS: u64 = 5_000;

impl Duration {
    /// The span of that many milliseconds.
    pub fn from_millis(millis: u64) -> (d: Duration)
        requires
            millis * 1_000_000 <= u64::MAX,
        ensures
            d.nanos == millis * 1_000_000,
    {
        Duration { nanos: millis * 1_000_000 }
    }
}

impl Instant {
    /// The point in time `d` after `self`.
    pub fn after(self, d: Duration) -> (t: Instant)
        requires
            self.nanos + d.nanos <= u64::MAX,
        ensures
            t.nanos == self.nanos + d.nanos,
    {
        Instant { nanos: self.nanos + d.nanos }
    }
}

/// The origin of the clock: no time that the session sees lies before it.
pub fn already_happened() -> (t: Instant)
    ensures
        t.nanos == 0,
{
    Instant { nanos: 0 }
}

/// Nanoseconds between regular reports.
pub open spec fn rr_interval_nanos(audio: bool) -> int {
    if audio {
        5_000_000_000
    } else {
        1_000_000_000
    }
}

/// Time between regular reports: five seconds for audio, one for video.
pub fn rr_interval(audio: bool) -> (d: Duration)
    ensures
        d.nanos == rr_interval_nanos(audio),
{
    if audio {
        Duration::from_millis(RR_INTERVAL_AUDIO_MILLIS)
    } else {
        Duration::from_millis(RR_INTERVAL_VIDEO_MILLIS)
    }
}

} // verus!
