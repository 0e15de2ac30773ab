//! Real-time bridge from a multichannel capture sink to a compressed,
//! hardware-compatible digital audio stream.
//!
//! The verified core covers the lock-free ring transport between pipeline
//! stages, the frame normalizer that tolerates varying capture buffer
//! layouts, the encoder supervisor's flow-control and shutdown decisions,
//! and the output-sink policies (jitter-buffer priming, frame staging).
//! Process management, device I/O and the capture session layer live in the
//! embedding application and talk to this crate through plain values.

pub mod alsa_control;
pub mod burst;
pub mod encoder;
pub mod flag;
pub mod normalize;
pub mod pipewire_client;
pub mod profile;
pub mod ring;
pub mod samples;
pub mod sink;
pub mod text;
