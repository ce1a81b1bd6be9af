//! The WebRTC sink: its configuration, its queue, the timing of its frames, the RTP
//! packets they are cut into, and the task that sends them.

pub mod clock;
pub mod config;
pub mod queue;
pub mod rtp;
pub mod sender;
