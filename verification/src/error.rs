//! The errors of the library and the texts they are reported with.

use vstd::prelude::*;

use crate::text;

verus! {

/// Why a manifest could not be loaded.
#[derive(Debug, PartialEq, Eq)]
pub enum ManifestError {
    /// The manifest could not be read; holds the reason.
    Io(String),
    /// The manifest is not valid YAML of the expected shape; holds the reason.
    Yaml(String),
    /// The manifest breaks one of its own rules; holds the whole message.
    Validation(String),
}

/// Why a manifest could not be compiled.
#[derive(Debug, PartialEq, Eq)]
pub enum CompileError {
    HardwareMismatch(String),
    InvalidConfiguration(String),
    DuplicatePipelineId(String),
    UnsupportedCapability(String),
    ProbeFailure(String),
    ResourceLimitExceeded { configured_limit_bytes: u64, estimated_usage_bytes: u64 },
}

/// What went wrong while a pipeline was built or run.
#[derive(Debug, PartialEq, Eq)]
pub enum RuntimeError {
    Adapter(String),
    Recoverable(String),
    Source(String),
    Transform(String),
    Sink(String),
    Pipeline(String),
    Join(String),
}

impl ManifestError {
    /// The text of the error.
    pub open spec fn text(&self) -> Seq<char> {
        match self {
            ManifestError::Io(reason) => "failed to read manifest: "@ + reason@,
            ManifestError::Yaml(reason) => "failed to parse manifest YAML: "@ + reason@,
            ManifestError::Validation(message) => message@,
        }
    }

    /// The text of the error.
    pub fn to_string(&self) -> (r: String)
        ensures
            r@ == self.text(),
    {
        match self {
            ManifestError::Io(reason) => text::join2("failed to read manifest: ", reason.as_str()),
            ManifestError::Yaml(reason) => text::join2(
                "failed to parse manifest YAML: ",
                reason.as_str(),
            ),
            ManifestError::Validation(message) => message.clone(),
        }
    }
}

impl CompileError {
    /// The text of the error.
    pub open spec fn text(&self) -> Seq<char> {
        match self {
            CompileError::HardwareMismatch(m) => "hardware constraint violation: "@ + m@,
            CompileError::InvalidConfiguration(m) => "invalid configuration: "@ + m@,
            CompileError::DuplicatePipelineId(m) => "duplicate pipeline id: "@ + m@,
            CompileError::UnsupportedCapability(m) => "unsupported capability: "@ + m@,
            CompileError::ProbeFailure(m) => "capability probe failed: "@ + m@,
            CompileError::ResourceLimitExceeded {
                configured_limit_bytes,
                estimated_usage_bytes,
            } => "resource limit exceeded: configured limit is "@ + text::decimal(
                *configured_limit_bytes as nat,
            ) + " bytes, but estimated usage is "@ + text::decimal(*estimated_usage_bytes as nat)
                + " bytes"@,
        }
    }

    /// The text of the error.
    pub fn to_string(&self) -> (r: String)
        ensures
            r@ == self.text(),
    {
        match self {
            CompileError::HardwareMismatch(m) => text::join2(
                "hardware constraint violation: ",
                m.as_str(),
            ),
            CompileError::InvalidConfiguration(m) => text::join2(
                "invalid configuration: ",
                m.as_str(),
            ),
            CompileError::DuplicatePipelineId(m) => text::join2(
                "duplicate pipeline id: ",
                m.as_str(),
            ),
            CompileError::UnsupportedCapability(m) => text::join2(
                "unsupported capability: ",
                m.as_str(),
            ),
            CompileError::ProbeFailure(m) => text::join2("capability probe failed: ", m.as_str()),
            CompileError::ResourceLimitExceeded {
                configured_limit_bytes,
                estimated_usage_bytes,
            } => text::join5(
                "resource limit exceeded: configured limit is ",
                text::decimal_string(*configured_limit_bytes).as_str(),
                " bytes, but estimated usage is ",
                text::decimal_string(*estimated_usage_bytes).as_str(),
                " bytes",
            ),
        }
    }
}

impl Clone for CompileError {
    fn clone(&self) -> (r: Self)
        ensures
            r == *self,
    {
        match self {
            CompileError::HardwareMismatch(m) => CompileError::HardwareMismatch(m.clone()),
            CompileError::InvalidConfiguration(m) => CompileError::InvalidConfiguration(m.clone()),
            CompileError::DuplicatePipelineId(m) => CompileError::DuplicatePipelineId(m.clone()),
            CompileError::UnsupportedCapability(m) => CompileError::UnsupportedCapability(
                m.clone(),
            ),
            CompileError::ProbeFailure(m) => CompileError::ProbeFailure(m.clone()),
            CompileError::ResourceLimitExceeded {
                configured_limit_bytes,
                estimated_usage_bytes,
            } => CompileError::ResourceLimitExceeded {
                configured_limit_bytes: *configured_limit_bytes,
                estimated_usage_bytes: *estimated_usage_bytes,
            },
        }
    }
}

impl RuntimeError {
    /// The text of the error.
    pub open spec fn text(&self) -> Seq<char> {
        match self {
            RuntimeError::Adapter(m) => "adapter error: "@ + m@,
            RuntimeError::Recoverable(m) => "recoverable runtime error: "@ + m@,
            RuntimeError::Source(m) => "source error: "@ + m@,
            RuntimeError::Transform(m) => "transform error: "@ + m@,
            RuntimeError::Sink(m) => "sink error: "@ + m@,
            RuntimeError::Pipeline(m) => "pipeline error: "@ + m@,
            RuntimeError::Join(m) => "task join error: "@ + m@,
        }
    }

    /// The text of the error.
    pub fn to_string(&self) -> (r: String)
        ensures
            r@ == self.text(),
    {
        match self {
            RuntimeError::Adapter(m) => text::join2("adapter error: ", m.as_str()),
            RuntimeError::Recoverable(m) => text::join2("recoverable runtime error: ", m.as_str()),
            RuntimeError::Source(m) => text::join2("source error: ", m.as_str()),
            RuntimeError::Transform(m) => text::join2("transform error: ", m.as_str()),
            RuntimeError::Sink(m) => text::join2("sink error: ", m.as_str()),
            RuntimeError::Pipeline(m) => text::join2("pipeline error: ", m.as_str()),
            RuntimeError::Join(m) => text::join2("task join error: ", m.as_str()),
        }
    }

    pub fn adapter(message: &str) -> (r: Self)
        ensures
            r matches RuntimeError::Adapter(m) && m@ == message@,
    {
        RuntimeError::Adapter(message.to_owned())
    }

    pub fn recoverable(message: &str) -> (r: Self)
        ensures
            r matches RuntimeError::Recoverable(m) && m@ == message@,
    {
        RuntimeError::Recoverable(message.to_owned())
    }

    pub fn source(message: &str) -> (r: Self)
        ensures
            r matches RuntimeError::Source(m) && m@ == message@,
    {
        RuntimeError::Source(message.to_owned())
    }

    pub fn transform(message: &str) -> (r: Self)
        ensures
            r matches RuntimeError::Transform(m) && m@ == message@,
    {
        RuntimeError::Transform(message.to_owned())
    }

    pub fn sink(message: &str) -> (r: Self)
        ensures
            r matches RuntimeError::Sink(m) && m@ == message@,
    {
        RuntimeError::Sink(message.to_owned())
    }

    pub fn pipeline(message: &str) -> (r: Self)
        ensures
            r matches RuntimeError::Pipeline(m) && m@ == message@,
    {
        RuntimeError::Pipeline(message.to_owned())
    }

    /// Whether the pipeline may be restarted after this error.
    pub fn is_recoverable(&self) -> (r: bool)
        ensures
            r == (self is Recoverable),
    {
        match self {
            RuntimeError::Recoverable(_) => true,
            _ => false,
        }
    }
}

impl Clone for RuntimeError {
    fn clone(&self) -> (r: Self)
        ensures
            r == *self,
    {
        match self {
            RuntimeError::Adapter(m) => RuntimeError::Adapter(m.clone()),
            RuntimeError::Recoverable(m) => RuntimeError::Recoverable(m.clone()),
            RuntimeError::Source(m) => RuntimeError::Source(m.clone()),
            RuntimeError::Transform(m) => RuntimeError::Transform(m.clone()),
            RuntimeError::Sink(m) => RuntimeError::Sink(m.clone()),
            RuntimeError::Pipeline(m) => RuntimeError::Pipeline(m.clone()),
            RuntimeError::Join(m) => RuntimeError::Join(m.clone()),
        }
    }
}

} // verus!
