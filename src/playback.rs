use vstd::prelude::*;

verus! {

/// Sub-frames in one frame: the unit of every position and range.
pub const SUBFRAMES_PER_FRAME: i64 = 1_000_000;

/// The speed multiplier of normal playback; speeds count thousandths.
pub const SPEED_ONE: i32 = 1000;

/// Configured direction of playback, or a playhead's direction of travel.
#[derive(Clone, Copy, Debug, PartialEq, Eq, Structural)]
pub enum PlaybackDirection {
    Normal,
    Reverse,
}

/// What happens when the playhead meets a boundary of its range.
#[derive(Clone, Copy, Debug, PartialEq, Eq, Structural)]
pub enum PlaybackLoopBehavior {
    Once,
    Loop,
    PingPong,
}

/// Whether time moves the playhead.
#[derive(Clone, Copy, Debug, PartialEq, Eq, Structural)]
pub enum PlaybackPlayMode {
    Playing,
    Paused,
    Stopped,
}

/// A sub-range `[start, end]` of an animation, in sub-frames.
#[derive(Clone, Copy, Debug, PartialEq, Eq, Structural)]
pub struct Segment {
    pub start: i64,
    pub end: i64,
}

/// The configuration that governs how a player advances.
#[derive(Clone, Copy, Debug, PartialEq, Eq, Structural)]
pub struct PlaybackOptions {
    pub direction: PlaybackDirection,
    pub loop_behavior: PlaybackLoopBehavior,
    pub play_mode: PlaybackPlayMode,
    /// Signed speed in thousandths; a negative speed plays against `direction`.
    pub speed: i32,
    /// A sub-range of the animation to play instead of the whole.
    pub segment: Option<Segment>,
}

/// `1` for Normal, `-1` for Reverse.
pub open spec fn direction_sign(d: PlaybackDirection) -> int {
    match d {
        PlaybackDirection::Normal => 1,
        PlaybackDirection::Reverse => -1,
    }
}

/// The opposite direction.
pub open spec fn flipped(d: PlaybackDirection) -> PlaybackDirection {
    match d {
        PlaybackDirection::Normal => PlaybackDirection::Reverse,
        PlaybackDirection::Reverse => PlaybackDirection::Normal,
    }
}

/// Signed distance in sub-frames that one advance travels.
pub open spec fn step_of(speed: int, travel: PlaybackDirection, elapsed_ms: int, frame_rate: int) -> int {
    speed * direction_sign(travel) * elapsed_ms * frame_rate
}

impl PlaybackDirection {
    /// The opposite direction.
    pub fn flip(self) -> (r: PlaybackDirection)
        ensures
            r == flipped(self),
    {
        match self {
            PlaybackDirection::Normal => PlaybackDirection::Reverse,
            PlaybackDirection::Reverse => PlaybackDirection::Normal,
        }
    }
}

impl PlaybackOptions {
    /// Options that play forward once at normal speed over the whole animation.
    pub fn new() -> (r: PlaybackOptions)
        ensures
            r.direction == PlaybackDirection::Normal,
            r.loop_behavior == PlaybackLoopBehavior::Once,
            r.play_mode == PlaybackPlayMode::Playing,
            r.speed == SPEED_ONE,
            r.segment.is_none(),
    {
        PlaybackOptions {
            direction: PlaybackDirection::Normal,
            loop_behavior: PlaybackLoopBehavior::Once,
            play_mode: PlaybackPlayMode::Playing,
            speed: SPEED_ONE,
            segment: None,
        }
    }
}

} // verus!
