//! Frame pacing for capture recording: turning frames that arrive at irregular wall-clock
//! times into a constant-frame-rate stream, with the audio timestamps that go beside it
//! and the pixel-buffer adapters that feed it.
//!
//! The library decides and never performs: a session hands out the steps to take on the
//! codec and the container, and the program around it takes them and reports back.

pub mod adapters;
pub mod audio;
pub mod error;
pub mod frame;
pub mod pacing;
pub mod pipeline;
pub mod rate;
pub mod runs;
pub mod video;

pub use adapters::bgra_frame;
pub use adapters::build_frame;
pub use adapters::nv12_frame;
pub use adapters::uyvy422_frame;
pub use adapters::yuyv422_frame;
pub use audio::MP3Encoder;
pub use error::EncoderError;
pub use frame::PixelLayout;
pub use frame::Plane;
pub use frame::VideoFrame;
pub use pacing::FramePlan;
pub use pacing::Pacer;
pub use pipeline::Step;
pub use rate::FrameRate;
pub use rate::TimeBase;
pub use video::H264Encoder;
