//! Core of a bidirectional PCM audio bridge: the capture-side pipeline that
//! turns raw fixed-point audio frames into 16-bit mono PCM blocks, the
//! little-endian wire codec and datagram fragmentation, the bounded
//! producer/consumer queue with drop-on-full backpressure, the playback-side
//! jitter buffer, the session counters, and the bridge orchestrator's state
//! machine.
//!
//! Audio amplitudes are carried as fixed-point integers scaled by 32768: a
//! raw sample `r: i32` stands for the amplitude `r / 32768`, so the nominal
//! range [-1, +1] is [-32768, +32768].

pub mod pcm;
pub mod pipeline;
pub mod jitter;
pub mod queue;
pub mod counters;
pub mod bridge;
pub mod net;
pub mod config;
pub mod session;
