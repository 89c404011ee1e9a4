//! Verified core of a live camera viewer: hardware-control proxying with
//! write deduplication, a manual/automatic exposure state machine, perceptual
//! lightness computed in exact fixed-point arithmetic, aspect-ratio fitting
//! for window resizes, and frame-interval averaging.

pub mod averager;
pub mod control;
pub mod exposure;
pub mod geometry;
pub mod luminance;
pub mod pipeline;

pub use control::ControlController;
pub use control::ControlInfo;
pub use exposure::ExposureMode;
pub use geometry::AspectRatio;
pub use luminance::Frame;
pub use pipeline::LoopState;
