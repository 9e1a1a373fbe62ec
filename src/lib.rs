//! A time-indexed cache of rigid-body transforms between named frames.
//!
//! Producers insert transforms (the pose of a child frame within its parent at
//! an instant); consumers ask for the composed transform between any two
//! connected frames at any instant, interpolated in time at every hop.
//!
//! The frame and time logic (ordering, retention, static transforms, chain
//! walking, truncation at the common ancestor, fold order and the frame and
//! timestamp checks of every composition) is verified here. The arithmetic of
//! the motion itself is supplied through the [`transform::Rigid`] trait.
pub mod buffer;
pub mod errors;
mod frame_index;
pub mod point;
pub mod registry;
pub mod time;
pub mod transform;

pub use buffer::Buffer;
pub use point::{Point, Transformable};
pub use registry::Registry;
pub use errors::{BufferError, QuaternionError, TransformError};
pub use time::{Duration, DurationError, Timestamp, TimestampError};
pub use transform::{Rigid, Transform};
