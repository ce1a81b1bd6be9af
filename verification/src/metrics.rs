//! What metrics are kept of.

use vstd::prelude::*;

verus! {

/// A place where the bytes of media are copied.
#[derive(Debug, Clone, Copy, PartialEq, Eq, Structural)]
pub enum CopyEvent {
    FfmpegPacketToPooledBuffer,
    LibcameraFrameToPooledBuffer,
    WebRtcPacketizerCopy,
}

/// Keeps no metrics.
#[derive(Debug, Clone, Copy, PartialEq, Eq, Structural)]
pub struct NoopMetricsExporter;

impl Default for NoopMetricsExporter {
    fn default() -> (r: Self)
        ensures
            r == NoopMetricsExporter,
    {
        NoopMetricsExporter
    }
}

} // verus!
