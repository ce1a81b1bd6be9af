//! Where a pipeline decodes and encodes.

use vstd::prelude::*;

use crate::compiler::{CodecPath, CompiledPipeline};
use crate::error::RuntimeError;
use crate::text;

verus! {

/// The codecs that a pipeline uses.
#[derive(Debug, Clone, Copy, PartialEq, Eq, Structural)]
pub enum TranscodeBackend {
    Software,
    Pi4HardwareEncode,
    Pi5HardwareDecode,
}

/// The codecs for a codec path; one that passes media through has none.
pub open spec fn backend_for(path: CodecPath) -> Option<TranscodeBackend> {
    match path {
        CodecPath::SoftwareTranscode => Some(TranscodeBackend::Software),
        CodecPath::HardwareTranscode => Some(TranscodeBackend::Pi4HardwareEncode),
        CodecPath::HardwareDecode => Some(TranscodeBackend::Pi5HardwareDecode),
        CodecPath::Passthrough => None,
    }
}

/// The codecs that a pipeline uses.
pub fn transcode_backend_for_pipeline(pipeline: &CompiledPipeline) -> (r: Result<
    TranscodeBackend,
    RuntimeError,
>)
    ensures
        match r {
            Ok(backend) => backend_for(pipeline.codec_path) == Some(backend),
            Err(error) => backend_for(pipeline.codec_path) is None && (error matches
                RuntimeError::Adapter(message) && message@ == "pipeline '"@ + pipeline.id@
                + "' does not have a transcode codec path"@),
        },
{
    match pipeline.codec_path {
        CodecPath::SoftwareTranscode => Ok(TranscodeBackend::Software),
        CodecPath::HardwareTranscode => Ok(TranscodeBackend::Pi4HardwareEncode),
        CodecPath::HardwareDecode => Ok(TranscodeBackend::Pi5HardwareDecode),
        CodecPath::Passthrough => Err(
            RuntimeError::Adapter(
                text::join3(
                    "pipeline '",
                    pipeline.id.as_str(),
                    "' does not have a transcode codec path",
                ),
            ),
        ),
    }
}

/// A pipeline has codecs exactly if it does not pass media through, and each path its own.
pub proof fn codec_paths_have_their_own_codecs(path: CodecPath)
    ensures
        backend_for(path) is None <==> path == CodecPath::Passthrough,
        backend_for(path) == Some(TranscodeBackend::Software) <==> path
            == CodecPath::SoftwareTranscode,
        backend_for(path) == Some(TranscodeBackend::Pi4HardwareEncode) <==> path
            == CodecPath::HardwareTranscode,
        backend_for(path) == Some(TranscodeBackend::Pi5HardwareDecode) <==> path
            == CodecPath::HardwareDecode,
{
}

} // verus!
