//! Playback and transition state machine for keyframed vector animations.
//!
//! Positions and ranges are measured in sub-frames (`SUBFRAMES_PER_FRAME` to a
//! frame), speeds in thousandths (`SPEED_ONE` is normal speed) and elapsed time
//! in milliseconds, so that one advance moves the playhead by exactly
//! `speed * elapsed_ms * frame_rate` sub-frames.

pub mod anchor;
pub mod playback;
pub mod playhead;
pub mod player;
pub mod theme;

pub use anchor::VelloLottieAnchor;
pub use playback::{
    PlaybackDirection, PlaybackLoopBehavior, PlaybackOptions, PlaybackPlayMode, Segment, SPEED_ONE,
    SUBFRAMES_PER_FRAME,
};
pub use player::{
    CarryOver, ConfigError, LottieIntegrationPlugin, LottiePlayer, PlayerState, PlayerTransition,
    TransitionTrigger,
};
pub use playhead::{PlaybackEvents, Playhead};
pub use theme::Theme;
