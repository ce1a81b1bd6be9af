//! The classes of FFmpeg's faults.

use vstd::prelude::*;

use crate::error::RuntimeError;
use crate::text;

verus! {

/// A fault of FFmpeg, as far as its class depends on it.
#[derive(Debug, Clone, Copy, PartialEq, Eq, Structural)]
pub enum FfmpegFault {
    Eof,
    Bug,
    Bug2,
    InvalidData,
    StreamNotFound,
    /// An error of the system, or any other.
    Other,
}

/// What a fault means for the pipeline.
#[derive(Debug, Clone, Copy, PartialEq, Eq, Structural)]
pub enum FfmpegErrorClass {
    NetworkStall,
    DeviceLost,
    InvalidData,
    CodecError,
    Unknown,
}

/// The class of a fault.
pub open spec fn class_of(fault: FfmpegFault) -> FfmpegErrorClass {
    match fault {
        FfmpegFault::Eof => FfmpegErrorClass::DeviceLost,
        FfmpegFault::Bug => FfmpegErrorClass::CodecError,
        FfmpegFault::Bug2 => FfmpegErrorClass::CodecError,
        FfmpegFault::InvalidData => FfmpegErrorClass::InvalidData,
        FfmpegFault::StreamNotFound => FfmpegErrorClass::InvalidData,
        FfmpegFault::Other => FfmpegErrorClass::Unknown,
    }
}

/// Whether a pipeline may be restarted after a fault of the class.
pub open spec fn class_recoverable(class: FfmpegErrorClass) -> bool {
    match class {
        FfmpegErrorClass::NetworkStall => true,
        FfmpegErrorClass::DeviceLost => true,
        FfmpegErrorClass::InvalidData => true,
        FfmpegErrorClass::CodecError => false,
        FfmpegErrorClass::Unknown => false,
    }
}

/// The name of a class.
pub open spec fn class_text(class: FfmpegErrorClass) -> Seq<char> {
    match class {
        FfmpegErrorClass::NetworkStall => "NetworkStall"@,
        FfmpegErrorClass::DeviceLost => "DeviceLost"@,
        FfmpegErrorClass::InvalidData => "InvalidData"@,
        FfmpegErrorClass::CodecError => "CodecError"@,
        FfmpegErrorClass::Unknown => "Unknown"@,
    }
}

impl FfmpegErrorClass {
    /// The class of a fault.
    pub fn from_ffmpeg_error(error: &FfmpegFault) -> (r: Self)
        ensures
            r == class_of(*error),
    {
        match error {
            FfmpegFault::Eof => FfmpegErrorClass::DeviceLost,
            FfmpegFault::Bug => FfmpegErrorClass::CodecError,
            FfmpegFault::Bug2 => FfmpegErrorClass::CodecError,
            FfmpegFault::InvalidData => FfmpegErrorClass::InvalidData,
            FfmpegFault::StreamNotFound => FfmpegErrorClass::InvalidData,
            FfmpegFault::Other => FfmpegErrorClass::Unknown,
        }
    }

    /// Whether a pipeline may be restarted after a fault of the class.
    pub fn is_recoverable(&self) -> (r: bool)
        ensures
            r == class_recoverable(*self),
    {
        match self {
            FfmpegErrorClass::NetworkStall => true,
            FfmpegErrorClass::DeviceLost => true,
            FfmpegErrorClass::InvalidData => true,
            FfmpegErrorClass::CodecError => false,
            FfmpegErrorClass::Unknown => false,
        }
    }

    /// The name of the class.
    pub fn name(&self) -> (r: &'static str)
        ensures
            r@ == class_text(*self),
    {
        match self {
            FfmpegErrorClass::NetworkStall => "NetworkStall",
            FfmpegErrorClass::DeviceLost => "DeviceLost",
            FfmpegErrorClass::InvalidData => "InvalidData",
            FfmpegErrorClass::CodecError => "CodecError",
            FfmpegErrorClass::Unknown => "Unknown",
        }
    }
}

/// The error that a fault is; `ctx` says what was being done, and `error` is the text of
/// the fault.
pub fn map_ffmpeg_error(ctx: &str, fault: FfmpegFault, error: &str) -> (r: RuntimeError)
    ensures
        if class_recoverable(class_of(fault)) {
            r matches RuntimeError::Recoverable(message) && message@ == ctx@ + " (recoverable "@
                + class_text(class_of(fault)) + "): "@ + error@
        } else {
            r matches RuntimeError::Adapter(message) && message@ == ctx@ + " ("@ + class_text(
                class_of(fault),
            ) + "): "@ + error@
        },
{
    let class = FfmpegErrorClass::from_ffmpeg_error(&fault);
    if class.is_recoverable() {
        RuntimeError::Recoverable(
            text::join5(ctx, " (recoverable ", class.name(), "): ", error),
        )
    } else {
        RuntimeError::Adapter(text::join5(ctx, " (", class.name(), "): ", error))
    }
}

// ---------------------------------------------------------------------------
// Laws
// ---------------------------------------------------------------------------

/// A pipeline is given up after a fault of the codecs, and restarted after the input is
/// lost.
pub proof fn lost_inputs_are_recoverable_and_codec_faults_are_not()
    ensures
        class_recoverable(class_of(FfmpegFault::Eof)),
        !class_recoverable(class_of(FfmpegFault::Bug)),
        !class_recoverable(class_of(FfmpegFault::Bug2)),
{
}

/// What a fault is taken for: an input that ended may come back, data that makes no sense
/// may be followed by better, and everything else is final.
pub proof fn faults_are_told_apart(fault: FfmpegFault)
    ensures
        class_recoverable(class_of(fault)) <==> fault is Eof || fault is InvalidData
            || fault is StreamNotFound,
        class_of(fault) == FfmpegErrorClass::DeviceLost <==> fault is Eof,
        class_of(fault) == FfmpegErrorClass::InvalidData <==> fault is InvalidData
            || fault is StreamNotFound,
        class_of(fault) == FfmpegErrorClass::CodecError <==> fault is Bug || fault is Bug2,
        class_of(fault) == FfmpegErrorClass::Unknown <==> fault is Other,
        class_recoverable(FfmpegErrorClass::NetworkStall),
{
}

/// A fault is passed on as recoverable if and only if it may pass: where the input ended, or
/// its data made no sense. Either way it keeps its words.
pub proof fn faults_are_passed_on(ctx: &str, fault: FfmpegFault, error: &str, r: RuntimeError)
    requires
        call_ensures(map_ffmpeg_error, (ctx, fault, error), r),
    ensures
        r is Recoverable <==> fault is Eof || fault is InvalidData || fault is StreamNotFound,
        !(r is Recoverable) ==> r is Adapter,
        r matches RuntimeError::Recoverable(message) ==> message@.len() >= error@.len()
            && message@.skip(message@.len() - error@.len()) == error@,
        r matches RuntimeError::Adapter(message) ==> message@.len() >= error@.len()
            && message@.skip(message@.len() - error@.len()) == error@,
{
    match r {
        RuntimeError::Recoverable(message) => {
            assert(message@.skip(message@.len() - error@.len()) == error@);
        },
        RuntimeError::Adapter(message) => {
            assert(message@.skip(message@.len() - error@.len()) == error@);
        },
        _ => {},
    }
}

} // verus!
