//! What the FFmpeg backend decides: how bit streams are rewritten, which devices,
//! codecs and filters a pipeline asks for, and how faults are classed.

pub mod capabilities;
pub mod device;
pub mod error;
pub mod filter;
pub mod h264;
pub mod hwaccel;
pub mod source;
pub mod transcode;
pub mod worker;
