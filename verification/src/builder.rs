//! Builders: what a run is made of, and what it still lacks.

use std::sync::Arc;

use vstd::prelude::*;

use crate::adapters::{self, BuiltinAdapters, Features};
use crate::capability::{self, CapabilityProbe, CompositeCapabilityProbe, HostCapabilities};
use crate::compiler::{
    self, CamlCompiler, CompiledGraph, CompiledPipeline, ResolvedInputBackend,
};
use crate::error::{CompileError, ManifestError, RuntimeError};
use crate::ffmpeg::source::FfmpegSourceFactory;
use crate::frontend::{CamlManifest, HardwareTarget, OutputProfile};
use crate::linux_media::camera::LibcameraSourceFactory;
use crate::overlay;
use crate::string_map::StringMap;
use crate::text;

verus! {

// ---------------------------------------------------------------------------
// Errors
// ---------------------------------------------------------------------------

/// Why a run could not be built.
#[derive(Debug, PartialEq, Eq)]
pub enum RuntimeBuilderError {
    Io(String),
    Manifest(ManifestError),
    Compile(CompileError),
    Runtime(RuntimeError),
    MissingManifest,
    MissingRuntimeFactory,
}

impl RuntimeBuilderError {
    /// The text of the error.
    pub open spec fn text(&self) -> Seq<char> {
        match self {
            RuntimeBuilderError::Io(reason) => "failed to open runtime input: "@ + reason@,
            RuntimeBuilderError::Manifest(error) => error.text(),
            RuntimeBuilderError::Compile(error) => error.text(),
            RuntimeBuilderError::Runtime(error) => error.text(),
            RuntimeBuilderError::MissingManifest =>
                "a manifest or compiled graph is required before compile/start"@,
            RuntimeBuilderError::MissingRuntimeFactory =>
                "runtime factory is required before starting the graph"@,
        }
    }

    /// The text of the error.
    pub fn to_string(&self) -> (r: String)
        ensures
            r@ == self.text(),
    {
        match self {
            RuntimeBuilderError::Io(reason) => text::join2(
                "failed to open runtime input: ",
                reason.as_str(),
            ),
            RuntimeBuilderError::Manifest(error) => error.to_string(),
            RuntimeBuilderError::Compile(error) => error.to_string(),
            RuntimeBuilderError::Runtime(error) => error.to_string(),
            RuntimeBuilderError::MissingManifest =>
                "a manifest or compiled graph is required before compile/start".to_owned(),
            RuntimeBuilderError::MissingRuntimeFactory =>
                "runtime factory is required before starting the graph".to_owned(),
        }
    }
}

/// Why pipelines could not be started.
#[derive(Debug, PartialEq, Eq)]
pub enum CamlError {
    Manifest(ManifestError),
    Compile(CompileError),
    Runtime(RuntimeError),
    Builder(RuntimeBuilderError),
    MissingCapabilityProbe { hardware_target: HardwareTarget },
    MissingWebRtcTrack { pipeline_id: String },
    MissingLibcameraProvider { pipeline_id: String },
    MissingAdapter { pipeline_id: String, backend: String },
    UnsupportedOutput { pipeline_id: String, output: String },
}

/// The name of a target.
pub open spec fn target_text(target: HardwareTarget) -> Seq<char> {
    match target {
        HardwareTarget::RaspberryPi4 => "RaspberryPi4"@,
        HardwareTarget::RaspberryPi5 => "RaspberryPi5"@,
        HardwareTarget::GenericLinux => "GenericLinux"@,
    }
}

fn target_name(target: HardwareTarget) -> (r: &'static str)
    ensures
        r@ == target_text(target),
{
    match target {
        HardwareTarget::RaspberryPi4 => "RaspberryPi4",
        HardwareTarget::RaspberryPi5 => "RaspberryPi5",
        HardwareTarget::GenericLinux => "GenericLinux",
    }
}

impl CamlError {
    /// The text of the error.
    pub open spec fn text(&self) -> Seq<char> {
        match self {
            CamlError::Manifest(error) => error.text(),
            CamlError::Compile(error) => error.text(),
            CamlError::Runtime(error) => error.text(),
            CamlError::Builder(error) => error.text(),
            CamlError::MissingCapabilityProbe { hardware_target } =>
                "missing capability probe for hardware target "@ + target_text(*hardware_target),
            CamlError::MissingWebRtcTrack { pipeline_id } =>
                "missing WebRTC track for pipeline "@ + pipeline_id@,
            CamlError::MissingLibcameraProvider { pipeline_id } =>
                "missing libcamera provider factory for pipeline "@ + pipeline_id@,
            CamlError::MissingAdapter { pipeline_id, backend } =>
                "missing adapter for pipeline "@ + pipeline_id@ + ", backend "@ + backend@,
            CamlError::UnsupportedOutput { pipeline_id, output } =>
                "unsupported output for pipeline "@ + pipeline_id@ + ": "@ + output@,
        }
    }

    /// The text of the error.
    pub fn to_string(&self) -> (r: String)
        ensures
            r@ == self.text(),
    {
        match self {
            CamlError::Manifest(error) => error.to_string(),
            CamlError::Compile(error) => error.to_string(),
            CamlError::Runtime(error) => error.to_string(),
            CamlError::Builder(error) => error.to_string(),
            CamlError::MissingCapabilityProbe { hardware_target } => text::join2(
                "missing capability probe for hardware target ",
                target_name(*hardware_target),
            ),
            CamlError::MissingWebRtcTrack { pipeline_id } => text::join2(
                "missing WebRTC track for pipeline ",
                pipeline_id.as_str(),
            ),
            CamlError::MissingLibcameraProvider { pipeline_id } => text::join2(
                "missing libcamera provider factory for pipeline ",
                pipeline_id.as_str(),
            ),
            CamlError::MissingAdapter { pipeline_id, backend } => {
                let mut out = text::join3(
                    "missing adapter for pipeline ",
                    pipeline_id.as_str(),
                    ", backend ",
                );
                out.append(backend.as_str());
                out
            },
            CamlError::UnsupportedOutput { pipeline_id, output } => {
                let mut out = text::join3(
                    "unsupported output for pipeline ",
                    pipeline_id.as_str(),
                    ": ",
                );
                out.append(output.as_str());
                out
            },
        }
    }
}

// ---------------------------------------------------------------------------
// Probes
// ---------------------------------------------------------------------------

/// The probes of the backends that a program was built with.
pub struct FeatureProbes {
    pub ffmpeg: Option<Arc<dyn CapabilityProbe>>,
    pub webrtc: Option<Arc<dyn CapabilityProbe>>,
    pub linux: Option<Arc<dyn CapabilityProbe>>,
}

/// A thing in a row of its own, if there is one.
pub open spec fn one_or_none<P>(thing: Option<P>) -> Seq<P> {
    match thing {
        Some(thing) => seq![thing],
        None => Seq::empty(),
    }
}

/// The probes of all backends, in the order in which they are asked.
pub open spec fn probes_in_order(probes: FeatureProbes) -> Seq<Arc<dyn CapabilityProbe>> {
    one_or_none(probes.ffmpeg) + one_or_none(probes.webrtc) + one_or_none(probes.linux)
}

fn list_of<P>(thing: Option<P>) -> (r: Vec<P>)
    ensures
        r@ == one_or_none(thing),
{
    let mut list: Vec<P> = Vec::new();
    if let Some(thing) = thing {
        list.push(thing);
    }
    assert(list@ =~= one_or_none(thing));
    list
}

/// Asks the probes of all backends.
pub fn feature_capability_probe(probes: FeatureProbes) -> (r: CompositeCapabilityProbe)
    ensures
        r.probes@ == probes_in_order(probes),
{
    let mut all = list_of(probes.ffmpeg);
    let mut webrtc = list_of(probes.webrtc);
    let mut linux = list_of(probes.linux);
    all.append(&mut webrtc);
    all.append(&mut linux);
    assert(all@ =~= probes_in_order(probes));
    CompositeCapabilityProbe::from_probes(all)
}

// ---------------------------------------------------------------------------
// Compiling
// ---------------------------------------------------------------------------

/// Whether a result is what compiling with the probe of a builder gives: without one
/// only manifests for any Linux machine compile.
pub open spec fn compiled_by(
    r: Result<CompiledGraph, CompileError>,
    manifest: CamlManifest,
    probe: Option<CompositeCapabilityProbe>,
    variables: Map<Seq<char>, Seq<char>>,
) -> bool {
    match probe {
        Some(probe) => exists|reply: Result<HostCapabilities, CompileError>| #[trigger]
            probe.may_report(manifest.system.hardware_target, reply) && compiler::compiles_after(
                r,
                manifest,
                reply,
                variables,
            ),
        None => compiler::compiles_without_probe(r, manifest, variables),
    }
}

fn compile_manifest(
    manifest: &CamlManifest,
    probe: &Option<CompositeCapabilityProbe>,
    overlay_variables: &StringMap<String>,
) -> (r: Result<CompiledGraph, CompileError>)
    ensures
        compiled_by(r, *manifest, *probe, overlay::variable_texts(overlay_variables@)),
{
    match probe {
        Some(probe) => {
            let reply = probe.capabilities(manifest.system.hardware_target);
            let ghost replied = reply;
            let r = CamlCompiler::compile_for_reply(manifest, reply, overlay_variables);
            assert(probe.may_report(manifest.system.hardware_target, replied));
            r
        },
        None => CamlCompiler::compile_with_overlay_variables(manifest, overlay_variables),
    }
}

/// Variables after more were set, one after the other.
pub open spec fn with_all(
    variables: Map<Seq<char>, String>,
    more: Seq<(String, String)>,
) -> Map<Seq<char>, String>
    decreases more.len(),
{
    if more.len() == 0 {
        variables
    } else {
        with_all(variables, more.drop_last()).insert(more.last().0@, more.last().1)
    }
}

fn set_all(variables: &mut StringMap<String>, more: Vec<(String, String)>)
    ensures
        final(variables)@ == with_all(old(variables)@, more@),
{
    let mut i: usize = 0;
    let ghost before = variables@;
    assert(more@.take(0) == Seq::<(String, String)>::empty());
    while i < more.len()
        invariant
            i <= more@.len(),
            variables@ == with_all(before, more@.take(i as int)),
        decreases more@.len() - i,
    {
        assert(more@.take(i + 1).drop_last() == more@.take(i as int));
        variables.insert(more[i].0.clone(), more[i].1.clone());
        i += 1;
    }
    assert(more@.take(i as int) == more@);
}

// ---------------------------------------------------------------------------
// The builder of a run
// ---------------------------------------------------------------------------

/// Builds a run. The factory of stages, the tracks that are streamed to, the factory of
/// cameras and the metrics are known by what stands for them.
pub struct RuntimeBuilder<F, T, L, M> {
    pub manifest: Option<CamlManifest>,
    pub compiled: Option<CompiledGraph>,
    pub capability_probe: Option<CompositeCapabilityProbe>,
    pub runtime_factory: Option<F>,
    pub webrtc_tracks: StringMap<Arc<T>>,
    pub libcamera_provider_factory: Option<Arc<L>>,
    pub metrics: Option<Arc<M>>,
    pub overlay_variables: StringMap<String>,
}

/// All that a run needs.
pub struct RuntimeStart<F, M> {
    pub compiled: CompiledGraph,
    pub runtime_factory: F,
    pub metrics: Option<Arc<M>>,
}

/// Whether nothing was set in a builder, but for its manifest.
pub open spec fn has_manifest_only<F, T, L, M>(builder: RuntimeBuilder<F, T, L, M>) -> bool {
    &&& builder.compiled is None
    &&& builder.capability_probe is None
    &&& builder.runtime_factory is None
    &&& builder.webrtc_tracks@ == Map::<Seq<char>, Arc<T>>::empty()
    &&& builder.libcamera_provider_factory is None
    &&& builder.metrics is None
    &&& builder.overlay_variables@ == Map::<Seq<char>, String>::empty()
}

/// Whether a result is what compiling in a builder gives: a graph that is there stays,
/// and else there has to be a manifest, which is compiled.
pub open spec fn builder_compiles<F, T, L, M>(
    r: Result<CompiledGraph, RuntimeBuilderError>,
    builder: RuntimeBuilder<F, T, L, M>,
) -> bool {
    match builder.compiled {
        Some(graph) => r == Ok::<CompiledGraph, RuntimeBuilderError>(graph),
        None => match builder.manifest {
            None => r matches Err(error) && error is MissingManifest,
            Some(manifest) => match r {
                Ok(graph) => compiled_by(
                    Ok(graph),
                    manifest,
                    builder.capability_probe,
                    overlay::variable_texts(builder.overlay_variables@),
                ),
                Err(RuntimeBuilderError::Compile(error)) => compiled_by(
                    Err(error),
                    manifest,
                    builder.capability_probe,
                    overlay::variable_texts(builder.overlay_variables@),
                ),
                Err(_) => false,
            },
        },
    }
}

impl<F, T, L, M> Default for RuntimeBuilder<F, T, L, M> {
    fn default() -> (r: Self)
        ensures
            r.manifest is None,
            has_manifest_only(r),
    {
        RuntimeBuilder::new()
    }
}

impl<F, T, L, M> RuntimeBuilder<F, T, L, M> {
    pub fn new() -> (r: Self)
        ensures
            r.manifest is None,
            has_manifest_only(r),
    {
        RuntimeBuilder {
            manifest: None,
            compiled: None,
            capability_probe: None,
            runtime_factory: None,
            webrtc_tracks: StringMap::new(),
            libcamera_provider_factory: None,
            metrics: None,
            overlay_variables: StringMap::new(),
        }
    }

    pub fn from_manifest(manifest: CamlManifest) -> (r: Self)
        ensures
            r.manifest == Some(manifest),
            has_manifest_only(r),
    {
        Self::new().with_manifest(manifest)
    }

    /// Takes a manifest that was loaded, or what went wrong while it was.
    pub fn from_loaded(loaded: Result<CamlManifest, ManifestError>) -> (r: Result<
        Self,
        RuntimeBuilderError,
    >)
        ensures
            match loaded {
                Ok(manifest) => r matches Ok(builder) && builder.manifest == Some(manifest)
                    && has_manifest_only(builder),
                Err(error) => r == Err::<Self, RuntimeBuilderError>(
                    RuntimeBuilderError::Manifest(error),
                ),
            },
    {
        match loaded {
            Ok(manifest) => Ok(Self::from_manifest(manifest)),
            Err(error) => Err(RuntimeBuilderError::Manifest(error)),
        }
    }

    pub fn with_manifest(self, manifest: CamlManifest) -> (r: Self)
        ensures
            r == (RuntimeBuilder { manifest: Some(manifest), ..self }),
    {
        let mut builder = self;
        builder.manifest = Some(manifest);
        builder
    }

    pub fn with_compiled_graph(self, compiled: CompiledGraph) -> (r: Self)
        ensures
            r == (RuntimeBuilder { compiled: Some(compiled), ..self }),
    {
        let mut builder = self;
        builder.compiled = Some(compiled);
        builder
    }

    pub fn with_capability_probe(self, capability_probe: Arc<dyn CapabilityProbe>) -> (r: Self)
        ensures
            r == (RuntimeBuilder { capability_probe: r.capability_probe, ..self }),
            r.capability_probe matches Some(all) && all.probes@.len() == 1 && all.probes@[0]
                == capability_probe,
    {
        let mut builder = self;
        let given = Some(capability_probe);
        builder.capability_probe = Some(CompositeCapabilityProbe::from_probes(list_of(given)));
        builder
    }

    /// Looks at the host with the probes of all backends.
    pub fn with_feature_capability_probe(self, probes: FeatureProbes) -> (r: Self)
        ensures
            r == (RuntimeBuilder { capability_probe: r.capability_probe, ..self }),
            r.capability_probe matches Some(all) && all.probes@ == probes_in_order(probes),
    {
        let mut builder = self;
        builder.capability_probe = Some(feature_capability_probe(probes));
        builder
    }

    /// Sets the track that a pipeline streams to.
    pub fn with_webrtc_track(self, pipeline_id: &str, track: Arc<T>) -> (r: Self)
        ensures
            r == (RuntimeBuilder { webrtc_tracks: r.webrtc_tracks, ..self }),
            r.webrtc_tracks@ == self.webrtc_tracks@.insert(pipeline_id@, track),
    {
        let mut builder = self;
        builder.webrtc_tracks.insert(pipeline_id.to_owned(), track);
        builder
    }

    pub fn with_libcamera_provider_factory(self, provider_factory: Arc<L>) -> (r: Self)
        ensures
            r == (RuntimeBuilder { libcamera_provider_factory: Some(provider_factory), ..self }),
    {
        let mut builder = self;
        builder.libcamera_provider_factory = Some(provider_factory);
        builder
    }

    /// The adapters of the backends that the program was built with.
    pub fn feature_media_adapters<R>(&self, features: Features) -> (r: BuiltinAdapters<
        Arc<L>,
        Arc<T>,
        R,
    >)
        ensures
            r.features == features,
            r.ffmpeg_source is Some <==> features.ffmpeg,
            match r.libcamera_source {
                Some(source) => features.pi && self.libcamera_provider_factory == Some(
                    source.provider_factory,
                ),
                None => !features.pi || self.libcamera_provider_factory is None,
            },
            r.webrtc_sinks@ == (if features.webrtc {
                self.webrtc_tracks@
            } else {
                Map::empty()
            }),
            r.recording_packets is None,
    {
        let mut adapters: BuiltinAdapters<Arc<L>, Arc<T>, R> = BuiltinAdapters::new(features);
        if features.ffmpeg {
            adapters.ffmpeg_source = Some(FfmpegSourceFactory::new());
        }
        if features.pi {
            if let Some(factory) = &self.libcamera_provider_factory {
                adapters.libcamera_source = Some(LibcameraSourceFactory::new(Arc::clone(factory)));
            }
        }
        if features.webrtc {
            adapters.webrtc_sinks = self.webrtc_tracks.clone();
        }
        adapters
    }

    pub fn with_runtime_factory(self, runtime_factory: F) -> (r: Self)
        ensures
            r == (RuntimeBuilder { runtime_factory: Some(runtime_factory), ..self }),
    {
        let mut builder = self;
        builder.runtime_factory = Some(runtime_factory);
        builder
    }

    pub fn with_metrics_exporter(self, metrics: Arc<M>) -> (r: Self)
        ensures
            r == (RuntimeBuilder { metrics: Some(metrics), ..self }),
    {
        let mut builder = self;
        builder.metrics = Some(metrics);
        builder
    }

    /// Sets a variable of the overlays.
    pub fn with_overlay_variable(self, key: &str, value: &str) -> (r: Self)
        ensures
            r == (RuntimeBuilder { overlay_variables: r.overlay_variables, ..self }),
            overlay::variable_texts(r.overlay_variables@) == overlay::variable_texts(
                self.overlay_variables@,
            ).insert(key@, value@),
    {
        let mut builder = self;
        builder.overlay_variables.insert(key.to_owned(), value.to_owned());
        assert(overlay::variable_texts(builder.overlay_variables@) =~= overlay::variable_texts(
            self.overlay_variables@,
        ).insert(key@, value@));
        builder
    }

    /// Sets variables of the overlays; of two with the same name the later counts.
    pub fn with_overlay_variables(self, variables: Vec<(String, String)>) -> (r: Self)
        ensures
            r == (RuntimeBuilder { overlay_variables: r.overlay_variables, ..self }),
            r.overlay_variables@ == with_all(self.overlay_variables@, variables@),
    {
        let mut builder = self;
        set_all(&mut builder.overlay_variables, variables);
        builder
    }

    /// Compiles the manifest, unless there is a compiled graph.
    pub fn compile(self) -> (r: Result<Self, RuntimeBuilderError>)
        ensures
            match r {
                Ok(builder) => (builder.compiled matches Some(graph) && builder_compiles(
                    Ok(graph),
                    self,
                )) && builder == (RuntimeBuilder { compiled: builder.compiled, ..self }),
                Err(error) => builder_compiles(Err(error), self),
            },
    {
        let mut builder = self;
        if builder.compiled.is_some() {
            return Ok(builder);
        }
        let compiled = match &builder.manifest {
            Some(manifest) => compile_manifest(
                manifest,
                &builder.capability_probe,
                &builder.overlay_variables,
            ),
            None => {
                return Err(RuntimeBuilderError::MissingManifest);
            },
        };
        match compiled {
            Ok(graph) => {
                builder.compiled = Some(graph);
                Ok(builder)
            },
            Err(error) => Err(RuntimeBuilderError::Compile(error)),
        }
    }

    /// Gathers all that a run needs: a graph, which is compiled if there is none, and a
    /// factory of stages.
    pub fn prepare_start(self) -> (r: Result<RuntimeStart<F, M>, RuntimeBuilderError>)
        ensures
            match r {
                Ok(start) => builder_compiles(Ok(start.compiled), self) && self.runtime_factory
                    == Some(start.runtime_factory) && start.metrics == self.metrics,
                Err(RuntimeBuilderError::MissingRuntimeFactory) => self.runtime_factory is None
                    && exists|graph: CompiledGraph| #[trigger] builder_compiles(Ok(graph), self),
                Err(error) => builder_compiles(Err(error), self),
            },
    {
        let builder = match self.compile() {
            Ok(builder) => builder,
            Err(error) => {
                return Err(error);
            },
        };
        let compiled = match builder.compiled {
            Some(compiled) => compiled,
            None => {
                return Err(RuntimeBuilderError::MissingManifest);
            },
        };
        assert(builder_compiles(Ok(compiled), self));
        match builder.runtime_factory {
            Some(runtime_factory) => Ok(
                RuntimeStart { compiled, runtime_factory, metrics: builder.metrics },
            ),
            None => Err(RuntimeBuilderError::MissingRuntimeFactory),
        }
    }
}

// ---------------------------------------------------------------------------
// The builder of pipelines
// ---------------------------------------------------------------------------

/// Starts pipelines from a manifest.
pub struct CamlPipeline;

impl CamlPipeline {
    /// Takes a manifest that was loaded, or what went wrong while it was.
    pub fn from_loaded<T, L, M>(loaded: Result<CamlManifest, ManifestError>) -> (r: Result<
        CamlPipelineBuilder<T, L, M>,
        CamlError,
    >)
        ensures
            match loaded {
                Ok(manifest) => r matches Ok(builder) && builder.manifest == manifest
                    && is_fresh(builder),
                Err(error) => r == Err::<CamlPipelineBuilder<T, L, M>, CamlError>(
                    CamlError::Manifest(error),
                ),
            },
    {
        match loaded {
            Ok(manifest) => Ok(CamlPipelineBuilder::new(manifest)),
            Err(error) => Err(CamlError::Manifest(error)),
        }
    }
}

/// Builds pipelines of a manifest.
pub struct CamlPipelineBuilder<T, L, M> {
    pub manifest: CamlManifest,
    pub capability_probe: Option<CompositeCapabilityProbe>,
    pub webrtc_tracks: StringMap<Arc<T>>,
    pub libcamera_provider_factory: Option<Arc<L>>,
    pub use_native_adapters: bool,
    pub metrics: Option<Arc<M>>,
    pub overlay_variables: StringMap<String>,
}

/// Whether nothing was set in a builder but its manifest.
pub open spec fn is_fresh<T, L, M>(builder: CamlPipelineBuilder<T, L, M>) -> bool {
    &&& builder.capability_probe is None
    &&& builder.webrtc_tracks@ == Map::<Seq<char>, Arc<T>>::empty()
    &&& builder.libcamera_provider_factory is None
    &&& !builder.use_native_adapters
    &&& builder.metrics is None
    &&& builder.overlay_variables@ == Map::<Seq<char>, String>::empty()
}

/// What a pipeline lacks.
pub enum Gap {
    Track(Seq<char>),
    Streaming(Seq<char>),
    Camera(Seq<char>),
    Cameras(Seq<char>),
}

/// What a pipeline lacks, if anything: a track if it streams, and a factory of cameras
/// if it reads from one.
pub open spec fn pipeline_gap(
    pipeline: CompiledPipeline,
    features: Features,
    has_track: bool,
    has_cameras: bool,
) -> Option<Gap> {
    if adapters::streams(pipeline.outputs@) && !features.webrtc {
        Some(Gap::Streaming(pipeline.id@))
    } else if adapters::streams(pipeline.outputs@) && !has_track {
        Some(Gap::Track(pipeline.id@))
    } else if pipeline.resolved_backend == ResolvedInputBackend::LibcameraDevice && !features.pi {
        Some(Gap::Cameras(pipeline.id@))
    } else if pipeline.resolved_backend == ResolvedInputBackend::LibcameraDevice && !has_cameras {
        Some(Gap::Camera(pipeline.id@))
    } else {
        None
    }
}

/// What the first pipeline that lacks anything lacks.
pub open spec fn first_gap(
    pipelines: Seq<CompiledPipeline>,
    features: Features,
    tracks: Set<Seq<char>>,
    has_cameras: bool,
) -> Option<Gap>
    decreases pipelines.len(),
{
    if pipelines.len() == 0 {
        None
    } else {
        match pipeline_gap(
            pipelines[0],
            features,
            tracks.contains(pipelines[0].id@),
            has_cameras,
        ) {
            Some(gap) => Some(gap),
            None => first_gap(pipelines.drop_first(), features, tracks, has_cameras),
        }
    }
}

/// Whether an error says what is lacking.
pub open spec fn tells(error: CamlError, gap: Gap) -> bool {
    match gap {
        Gap::Track(id) => error matches CamlError::MissingWebRtcTrack { pipeline_id } && pipeline_id@
            == id,
        Gap::Streaming(id) => error matches CamlError::UnsupportedOutput { pipeline_id, output }
            && pipeline_id@ == id && output@ == "webrtc_rtp"@,
        Gap::Camera(id) => error matches CamlError::MissingLibcameraProvider { pipeline_id }
            && pipeline_id@ == id,
        Gap::Cameras(id) => error matches CamlError::MissingAdapter { pipeline_id, backend }
            && pipeline_id@ == id && backend@ == "libcamera"@,
    }
}

fn has_stream(outputs: &Vec<OutputProfile>) -> (r: bool)
    ensures
        r == adapters::streams(outputs@),
{
    let mut i: usize = 0;
    while i < outputs.len()
        invariant
            i <= outputs@.len(),
            forall|k: int| 0 <= k < i ==> !(#[trigger] outputs@[k] is WebrtcRtp),
        decreases outputs@.len() - i,
    {
        match &outputs[i] {
            OutputProfile::WebrtcRtp { .. } => {
                assert(outputs@[i as int] is WebrtcRtp);
                return true;
            },
            OutputProfile::Recording { .. } => {},
        }
        i += 1;
    }
    false
}

/// Holds pipelines to having all they need.
pub fn check_pipelines<T>(
    pipelines: &Vec<CompiledPipeline>,
    features: Features,
    webrtc_tracks: &StringMap<Arc<T>>,
    has_cameras: bool,
) -> (r: Result<(), CamlError>)
    ensures
        match r {
            Ok(()) => first_gap(pipelines@, features, webrtc_tracks@.dom(), has_cameras) is None,
            Err(error) => first_gap(
                pipelines@,
                features,
                webrtc_tracks@.dom(),
                has_cameras,
            ) matches Some(gap) && tells(error, gap),
        },
{
    let mut i: usize = 0;
    assert(pipelines@.skip(0) == pipelines@);
    while i < pipelines.len()
        invariant
            i <= pipelines@.len(),
            first_gap(pipelines@, features, webrtc_tracks@.dom(), has_cameras) == first_gap(
                pipelines@.skip(i as int),
                features,
                webrtc_tracks@.dom(),
                has_cameras,
            ),
        decreases pipelines@.len() - i,
    {
        let pipeline = &pipelines[i];
        assert(pipelines@.skip(i as int).drop_first() == pipelines@.skip(i + 1));
        assert(pipelines@.skip(i as int)[0] == *pipeline);
        if has_stream(&pipeline.outputs) {
            if !features.webrtc {
                return Err(
                    CamlError::UnsupportedOutput {
                        pipeline_id: pipeline.id.clone(),
                        output: "webrtc_rtp".to_owned(),
                    },
                );
            }
            if !webrtc_tracks.contains_key(pipeline.id.as_str()) {
                return Err(CamlError::MissingWebRtcTrack { pipeline_id: pipeline.id.clone() });
            }
        }
        if pipeline.resolved_backend == ResolvedInputBackend::LibcameraDevice {
            if !features.pi {
                return Err(
                    CamlError::MissingAdapter {
                        pipeline_id: pipeline.id.clone(),
                        backend: "libcamera".to_owned(),
                    },
                );
            }
            if !has_cameras {
                return Err(
                    CamlError::MissingLibcameraProvider { pipeline_id: pipeline.id.clone() },
                );
            }
        }
        i += 1;
    }
    Ok(())
}

impl<T, L, M> CamlPipelineBuilder<T, L, M> {
    pub fn new(manifest: CamlManifest) -> (r: Self)
        ensures
            r.manifest == manifest,
            is_fresh(r),
    {
        CamlPipelineBuilder {
            manifest,
            capability_probe: None,
            webrtc_tracks: StringMap::new(),
            libcamera_provider_factory: None,
            use_native_adapters: false,
            metrics: None,
            overlay_variables: StringMap::new(),
        }
    }

    pub fn with_capability_probe(self, capability_probe: Arc<dyn CapabilityProbe>) -> (r: Self)
        ensures
            r == (CamlPipelineBuilder { capability_probe: r.capability_probe, ..self }),
            r.capability_probe matches Some(all) && all.probes@.len() == 1 && all.probes@[0]
                == capability_probe,
    {
        let mut builder = self;
        let given = Some(capability_probe);
        builder.capability_probe = Some(CompositeCapabilityProbe::from_probes(list_of(given)));
        builder
    }

    /// Looks at the host with the probes of all backends.
    pub fn with_feature_capability_probe(self, probes: FeatureProbes) -> (r: Self)
        ensures
            r == (CamlPipelineBuilder { capability_probe: r.capability_probe, ..self }),
            r.capability_probe matches Some(all) && all.probes@ == probes_in_order(probes),
    {
        let mut builder = self;
        builder.capability_probe = Some(feature_capability_probe(probes));
        builder
    }

    /// Sets the track that a pipeline streams to.
    pub fn with_webrtc_track(self, pipeline_id: &str, track: Arc<T>) -> (r: Self)
        ensures
            r == (CamlPipelineBuilder { webrtc_tracks: r.webrtc_tracks, ..self }),
            r.webrtc_tracks@ == self.webrtc_tracks@.insert(pipeline_id@, track),
    {
        let mut builder = self;
        builder.webrtc_tracks.insert(pipeline_id.to_owned(), track);
        builder
    }

    pub fn with_libcamera_provider_factory(self, provider_factory: Arc<L>) -> (r: Self)
        ensures
            r == (CamlPipelineBuilder {
                libcamera_provider_factory: Some(provider_factory),
                ..self
            }),
    {
        let mut builder = self;
        builder.libcamera_provider_factory = Some(provider_factory);
        builder
    }

    /// Uses the adapters that come with the library.
    pub fn with_native_adapters(self) -> (r: Self)
        ensures
            r == (CamlPipelineBuilder { use_native_adapters: true, ..self }),
    {
        let mut builder = self;
        builder.use_native_adapters = true;
        builder
    }

    pub fn with_metrics_exporter(self, metrics: Arc<M>) -> (r: Self)
        ensures
            r == (CamlPipelineBuilder { metrics: Some(metrics), ..self }),
    {
        let mut builder = self;
        builder.metrics = Some(metrics);
        builder
    }

    /// Sets a variable of the overlays.
    pub fn with_overlay_variable(self, key: &str, value: &str) -> (r: Self)
        ensures
            r == (CamlPipelineBuilder { overlay_variables: r.overlay_variables, ..self }),
            overlay::variable_texts(r.overlay_variables@) == overlay::variable_texts(
                self.overlay_variables@,
            ).insert(key@, value@),
    {
        let mut builder = self;
        builder.overlay_variables.insert(key.to_owned(), value.to_owned());
        assert(overlay::variable_texts(builder.overlay_variables@) =~= overlay::variable_texts(
            self.overlay_variables@,
        ).insert(key@, value@));
        builder
    }

    /// Sets variables of the overlays; of two with the same name the later counts.
    pub fn with_overlay_variables(self, variables: Vec<(String, String)>) -> (r: Self)
        ensures
            r == (CamlPipelineBuilder { overlay_variables: r.overlay_variables, ..self }),
            r.overlay_variables@ == with_all(self.overlay_variables@, variables@),
    {
        let mut builder = self;
        set_all(&mut builder.overlay_variables, variables);
        builder
    }

    /// Compiles the manifest. One for a Raspberry Pi needs a probe.
    pub fn compile(&self) -> (r: Result<CompiledGraph, CamlError>)
        ensures
            pipelines_compile(r, *self),
    {
        if self.capability_probe.is_none() && self.manifest.system.hardware_target
            != HardwareTarget::GenericLinux {
            return Err(
                CamlError::MissingCapabilityProbe {
                    hardware_target: self.manifest.system.hardware_target,
                },
            );
        }
        match compile_manifest(&self.manifest, &self.capability_probe, &self.overlay_variables) {
            Ok(graph) => Ok(graph),
            Err(error) => Err(CamlError::Compile(error)),
        }
    }

    /// Compiles the manifest, holds its pipelines to having all they need, and builds
    /// the run. The run has the tracks and the cameras if the adapters that come with
    /// the library are used; without these it lacks a factory of stages.
    pub fn prepare_start<F>(self, features: Features) -> (r: Result<
        RuntimeBuilder<F, T, L, M>,
        CamlError,
    >)
        ensures
            match r {
                Ok(run) => (run.compiled matches Some(graph) && pipelines_compile(Ok(graph), self)
                    && first_gap(
                    graph.pipelines@,
                    features,
                    self.webrtc_tracks@.dom(),
                    self.libcamera_provider_factory is Some,
                ) is None) && run_of(run, self, features),
                Err(error) => pipelines_compile(Err(error), self) || exists|graph: CompiledGraph|
                    {
                        &&& #[trigger] pipelines_compile(Ok(graph), self)
                        &&& first_gap(
                            graph.pipelines@,
                            features,
                            self.webrtc_tracks@.dom(),
                            self.libcamera_provider_factory is Some,
                        ) matches Some(gap)
                        &&& tells(error, gap)
                    },
            },
    {
        let compiled = match self.compile() {
            Ok(compiled) => compiled,
            Err(error) => {
                return Err(error);
            },
        };
        match check_pipelines(
            &compiled.pipelines,
            features,
            &self.webrtc_tracks,
            self.libcamera_provider_factory.is_some(),
        ) {
            Ok(()) => {},
            Err(error) => {
                assert(pipelines_compile(Ok(compiled), self));
                return Err(error);
            },
        }
        let mut run: RuntimeBuilder<F, T, L, M> = RuntimeBuilder::new().with_compiled_graph(
            compiled,
        );
        run.metrics = self.metrics;
        if self.use_native_adapters {
            if features.webrtc {
                run.webrtc_tracks = self.webrtc_tracks;
            }
            if features.pi {
                run.libcamera_provider_factory = self.libcamera_provider_factory;
            }
        }
        Ok(run)
    }
}

/// Whether a result is what compiling the manifest of a builder gives.
pub open spec fn pipelines_compile<T, L, M>(
    r: Result<CompiledGraph, CamlError>,
    builder: CamlPipelineBuilder<T, L, M>,
) -> bool {
    let target = builder.manifest.system.hardware_target;
    if builder.capability_probe is None && target != HardwareTarget::GenericLinux {
        r matches Err(CamlError::MissingCapabilityProbe { hardware_target }) && hardware_target
            == target
    } else {
        match r {
            Ok(graph) => compiled_by(
                Ok(graph),
                builder.manifest,
                builder.capability_probe,
                overlay::variable_texts(builder.overlay_variables@),
            ),
            Err(CamlError::Compile(error)) => compiled_by(
                Err(error),
                builder.manifest,
                builder.capability_probe,
                overlay::variable_texts(builder.overlay_variables@),
            ),
            Err(_) => false,
        }
    }
}

/// Whether a run is the one that a builder of pipelines asks for, but for its graph.
pub open spec fn run_of<F, T, L, M>(
    run: RuntimeBuilder<F, T, L, M>,
    builder: CamlPipelineBuilder<T, L, M>,
    features: Features,
) -> bool {
    &&& run.manifest is None
    &&& run.capability_probe is None
    &&& run.runtime_factory is None
    &&& run.overlay_variables@ == Map::<Seq<char>, String>::empty()
    &&& run.metrics == builder.metrics
    &&& run.webrtc_tracks@ == (if builder.use_native_adapters && features.webrtc {
        builder.webrtc_tracks@
    } else {
        Map::empty()
    })
    &&& run.libcamera_provider_factory == (if builder.use_native_adapters && features.pi {
        builder.libcamera_provider_factory
    } else {
        None
    })
}

// ---------------------------------------------------------------------------
// Laws
// ---------------------------------------------------------------------------

/// A probe that was handed to a builder speaks for itself: what is compiled with is a
/// reply of that probe.
pub proof fn single_probes_speak_for_themselves(
    all: CompositeCapabilityProbe,
    hardware_target: HardwareTarget,
    reply: Result<HostCapabilities, CompileError>,
)
    requires
        all.probes@.len() == 1,
        all.may_report(hardware_target, reply),
    ensures
        all.probes@[0].may_report(hardware_target, reply),
{
    let one = choose|one: Result<HostCapabilities, CompileError>| #[trigger]
        all.probes@[0].may_report(hardware_target, one) && match one {
            Err(error) => reply == Err::<HostCapabilities, CompileError>(error),
            Ok(capabilities) => match capability::merged(
                capability::no_capabilities(),
                capabilities,
            ) {
                Err(failure) => reply matches Err(error) && error@ == failure,
                Ok(both) => capability::may_add_up(
                    all.probes@.drop_first(),
                    hardware_target,
                    both,
                    reply,
                ),
            },
        };
    if let Ok(capabilities) = one {
        capability::merging_nothing_changes_nothing(capabilities);
        capability::merging_is_commutative(capability::no_capabilities(), capabilities);
    }
}

/// Pipelines that lack nothing have a track each if they stream, and a factory of
/// cameras if they read from one.
pub proof fn started_pipelines_have_what_they_need(
    pipelines: Seq<CompiledPipeline>,
    features: Features,
    tracks: Set<Seq<char>>,
    has_cameras: bool,
    at: int,
)
    requires
        first_gap(pipelines, features, tracks, has_cameras) is None,
        0 <= at < pipelines.len(),
    ensures
        adapters::streams(pipelines[at].outputs@) ==> features.webrtc && tracks.contains(
            pipelines[at].id@,
        ),
        pipelines[at].resolved_backend == ResolvedInputBackend::LibcameraDevice ==> features.pi
            && has_cameras,
    decreases pipelines.len(),
{
    if at > 0 {
        assert(pipelines.drop_first()[at - 1] == pipelines[at]);
        started_pipelines_have_what_they_need(
            pipelines.drop_first(),
            features,
            tracks,
            has_cameras,
            at - 1,
        );
    }
}

/// A pipeline that lacks nothing gets its sinks from the adapters of the run, if these
/// stream to its tracks.
pub proof fn checked_pipelines_get_their_sinks(
    pipeline: CompiledPipeline,
    features: Features,
    has_track: bool,
    has_cameras: bool,
)
    requires
        pipeline_gap(pipeline, features, has_track, has_cameras) is None,
    ensures
        adapters::sinks_failure(pipeline, features, has_track) is None,
{
}

/// Without a probe no manifest for a Raspberry Pi is started.
pub proof fn raspberry_pis_need_a_probe<T, L, M>(
    r: Result<CompiledGraph, CamlError>,
    builder: CamlPipelineBuilder<T, L, M>,
)
    requires
        pipelines_compile(r, builder),
        r is Ok,
    ensures
        builder.manifest.system.hardware_target != HardwareTarget::GenericLinux
            ==> builder.capability_probe is Some,
{
}

/// Compiling twice is compiling once: a builder that was compiled keeps its graph.
pub proof fn compiling_again_changes_nothing<F, T, L, M>(
    builder: RuntimeBuilder<F, T, L, M>,
    graph: CompiledGraph,
    r: Result<CompiledGraph, RuntimeBuilderError>,
)
    requires
        builder.compiled == Some(graph),
        builder_compiles(r, builder),
    ensures
        r == Ok::<CompiledGraph, RuntimeBuilderError>(graph),
{
}

/// A pipeline lacks something if and only if it streams without a way to, or reads from a
/// camera without one.
pub proof fn gaps_are_what_is_missing(
    pipeline: CompiledPipeline,
    features: Features,
    has_track: bool,
    has_cameras: bool,
)
    ensures
        ({
            let streams = exists|i: int|
                0 <= i < pipeline.outputs@.len() && #[trigger] pipeline.outputs@[i] is WebrtcRtp;
            let films = pipeline.resolved_backend == ResolvedInputBackend::LibcameraDevice;
            pipeline_gap(pipeline, features, has_track, has_cameras) is None <==> (streams
                ==> features.webrtc && has_track) && (films ==> features.pi && has_cameras)
        }),
        pipeline_gap(pipeline, features, has_track, has_cameras) matches Some(gap) ==> match gap {
            Gap::Track(id) => id == pipeline.id@ && features.webrtc && !has_track,
            Gap::Streaming(id) => id == pipeline.id@ && !features.webrtc,
            Gap::Camera(id) => id == pipeline.id@ && features.pi && !has_cameras,
            Gap::Cameras(id) => id == pipeline.id@ && !features.pi,
        },
{
}

/// The first pipeline that lacks something is reported; where none does, nothing is.
pub proof fn the_first_gap_is_reported(
    pipelines: Seq<CompiledPipeline>,
    features: Features,
    tracks: Set<Seq<char>>,
    has_cameras: bool,
    at: int,
)
    requires
        0 <= at <= pipelines.len(),
        forall|i: int|
            0 <= i < at ==> pipeline_gap(
                #[trigger] pipelines[i],
                features,
                tracks.contains(pipelines[i].id@),
                has_cameras,
            ) is None,
    ensures
        at == pipelines.len() ==> first_gap(pipelines, features, tracks, has_cameras) is None,
        at < pipelines.len() && pipeline_gap(
            pipelines[at],
            features,
            tracks.contains(pipelines[at].id@),
            has_cameras,
        ) is Some ==> first_gap(pipelines, features, tracks, has_cameras) == pipeline_gap(
            pipelines[at],
            features,
            tracks.contains(pipelines[at].id@),
            has_cameras,
        ),
    decreases at,
{
    if at > 0 {
        let rest = pipelines.drop_first();
        assert(pipeline_gap(
            pipelines[0],
            features,
            tracks.contains(pipelines[0].id@),
            has_cameras,
        ) is None);
        assert forall|i: int| 0 <= i < at - 1 implies pipeline_gap(
            #[trigger] rest[i],
            features,
            tracks.contains(rest[i].id@),
            has_cameras,
        ) is None by {
            assert(rest[i] == pipelines[i + 1]);
        }
        if at < pipelines.len() {
            assert(rest[at - 1] == pipelines[at]);
        }
        the_first_gap_is_reported(rest, features, tracks, has_cameras, at - 1);
    }
}

/// Of several values for one variable the last counts; variables that are not named again
/// keep theirs.
pub proof fn the_last_value_counts(
    variables: Map<Seq<char>, String>,
    more: Seq<(String, String)>,
    name: Seq<char>,
)
    ensures
        (forall|i: int| 0 <= i < more.len() ==> (#[trigger] more[i]).0@ != name) ==> (with_all(
            variables,
            more,
        ).dom().contains(name) == variables.dom().contains(name) && (variables.dom().contains(name)
            ==> with_all(variables, more)[name] == variables[name])),
        forall|at: int|
            0 <= at < more.len() && (#[trigger] more[at]).0@ == name && (forall|i: int|
                at < i < more.len() ==> (#[trigger] more[i]).0@ != name) ==> with_all(
                variables,
                more,
            ).dom().contains(name) && with_all(variables, more)[name] == more[at].1,
    decreases more.len(),
{
    if more.len() > 0 {
        let front = more.drop_last();
        the_last_value_counts(variables, front, name);
        let last = more.len() - 1;
        assert(with_all(variables, more) == with_all(variables, front).insert(
            more[last].0@,
            more[last].1,
        ));
        if forall|i: int| 0 <= i < more.len() ==> (#[trigger] more[i]).0@ != name {
            assert(more[last].0@ != name);
            assert forall|i: int| 0 <= i < front.len() implies (#[trigger] front[i]).0@ != name by {
                assert(front[i] == more[i]);
            }
        }
        assert forall|at: int|
            0 <= at < more.len() && (#[trigger] more[at]).0@ == name && (forall|i: int|
                at < i < more.len() ==> (#[trigger] more[i]).0@ != name) implies with_all(
            variables,
            more,
        ).dom().contains(name) && with_all(variables, more)[name] == more[at].1 by {
            if at < last {
                assert(more[last].0@ != name);
                assert(front[at] == more[at]);
                assert forall|i: int| at < i < front.len() implies (#[trigger] front[i]).0@
                    != name by {
                    assert(front[i] == more[i]);
                }
            }
        }
    }
}

/// Without a manifest and without a graph there is nothing to compile.
pub proof fn builders_need_a_manifest<F, T, L, M>(
    r: Result<CompiledGraph, RuntimeBuilderError>,
    builder: RuntimeBuilder<F, T, L, M>,
)
    requires
        builder_compiles(r, builder),
    ensures
        builder.compiled is None && builder.manifest is None ==> (r matches Err(error)
            && error is MissingManifest),
        r matches Err(error) ==> builder.compiled is None && (error is MissingManifest
            || error is Compile),
        builder.manifest is Some && builder.compiled is None && builder.capability_probe is None
            && builder.manifest->0.system.hardware_target != HardwareTarget::GenericLinux
            ==> r is Err,
{
}

/// What is handed to a run: the tracks and the cameras only where the native adapters are
/// wanted and the program has them, and the metrics in any case.
pub proof fn runs_get_the_native_adapters<F, T, L, M>(
    run: RuntimeBuilder<F, T, L, M>,
    builder: CamlPipelineBuilder<T, L, M>,
    features: Features,
)
    requires
        run_of(run, builder, features),
    ensures
        run.metrics == builder.metrics,
        run.manifest is None,
        run.capability_probe is None,
        run.runtime_factory is None,
        run.overlay_variables@.dom() == Set::<Seq<char>>::empty(),
        builder.use_native_adapters && features.webrtc ==> run.webrtc_tracks@
            == builder.webrtc_tracks@,
        !(builder.use_native_adapters && features.webrtc) ==> run.webrtc_tracks@.dom()
            == Set::<Seq<char>>::empty(),
        builder.use_native_adapters && features.pi ==> run.libcamera_provider_factory
            == builder.libcamera_provider_factory,
        !(builder.use_native_adapters && features.pi) ==> run.libcamera_provider_factory is None,
{
}

/// A graph that was compiled with a probe fits a host that the probe reported.
pub proof fn probed_graphs_fit_a_reported_host(
    graph: CompiledGraph,
    manifest: CamlManifest,
    probe: CompositeCapabilityProbe,
    variables: Map<Seq<char>, Seq<char>>,
)
    requires
        compiled_by(Ok(graph), manifest, Some(probe), variables),
    ensures
        exists|host: HostCapabilities|
            {
                &&& #[trigger] probe.may_report(manifest.system.hardware_target, Ok(host))
                &&& compiler::compiles_to(Ok(graph), manifest, Some(host), variables)
            },
{
    let reply = choose|reply: Result<HostCapabilities, CompileError>| #[trigger]
        probe.may_report(manifest.system.hardware_target, reply) && compiler::compiles_after(
            Ok(graph),
            manifest,
            reply,
            variables,
        );
    let host = reply->Ok_0;
    assert(probe.may_report(manifest.system.hardware_target, Ok(host)));
}

/// Without a probe, a manifest for a Raspberry Pi is refused for want of one, and any other
/// compiles as if the host were not looked at.
pub proof fn missing_probes_are_reported<T, L, M>(
    r: Result<CompiledGraph, CamlError>,
    builder: CamlPipelineBuilder<T, L, M>,
)
    requires
        pipelines_compile(r, builder),
        builder.capability_probe is None,
    ensures
        ({
            let target = builder.manifest.system.hardware_target;
            let variables = overlay::variable_texts(builder.overlay_variables@);
            if target == HardwareTarget::GenericLinux {
                match r {
                    Ok(graph) => compiler::compiles_to(Ok(graph), builder.manifest, None, variables),
                    Err(CamlError::Compile(error)) => compiler::compile_failure(
                        builder.manifest,
                        None,
                        variables,
                    ) == Some(error@),
                    Err(_) => false,
                }
            } else {
                r matches Err(CamlError::MissingCapabilityProbe { hardware_target })
                    && hardware_target == target
            }
        }),
{
}

/// A new builder has its manifest and nothing else.
pub proof fn new_builders_have_nothing_else<F, T, L, M>(
    builder: RuntimeBuilder<F, T, L, M>,
    fresh: CamlPipelineBuilder<T, L, M>,
)
    requires
        has_manifest_only(builder),
        is_fresh(fresh),
    ensures
        builder.compiled is None,
        builder.capability_probe is None,
        builder.runtime_factory is None,
        builder.metrics is None,
        builder.libcamera_provider_factory is None,
        builder.webrtc_tracks@.dom() == Set::<Seq<char>>::empty(),
        builder.overlay_variables@.dom() == Set::<Seq<char>>::empty(),
        fresh.capability_probe is None,
        fresh.metrics is None,
        fresh.libcamera_provider_factory is None,
        fresh.webrtc_tracks@.dom() == Set::<Seq<char>>::empty(),
        fresh.overlay_variables@.dom() == Set::<Seq<char>>::empty(),
        !fresh.use_native_adapters,
{
}

/// Pipelines may start together if and only if each of them that streams has a track, and
/// each that films a camera, in a program that can do both.
pub proof fn pipelines_are_checked_before_they_start<T>(
    pipelines: &Vec<CompiledPipeline>,
    features: Features,
    webrtc_tracks: &StringMap<Arc<T>>,
    has_cameras: bool,
    r: Result<(), CamlError>,
)
    requires
        call_ensures(check_pipelines::<T>, (pipelines, features, webrtc_tracks, has_cameras), r),
    ensures
        r is Ok <==> forall|i: int|
            0 <= i < pipelines@.len() ==> {
                let pipeline = #[trigger] pipelines@[i];
                &&& adapters::streams(pipeline.outputs@) ==> features.webrtc
                    && webrtc_tracks@.dom().contains(pipeline.id@)
                &&& pipeline.resolved_backend == ResolvedInputBackend::LibcameraDevice
                    ==> features.pi && has_cameras
            },
{
    let tracks = webrtc_tracks@.dom();
    if r is Ok {
        assert forall|i: int| 0 <= i < pipelines@.len() implies {
            let pipeline = #[trigger] pipelines@[i];
            &&& adapters::streams(pipeline.outputs@) ==> features.webrtc && tracks.contains(
                pipeline.id@,
            )
            &&& pipeline.resolved_backend == ResolvedInputBackend::LibcameraDevice ==> features.pi
                && has_cameras
        } by {
            started_pipelines_have_what_they_need(pipelines@, features, tracks, has_cameras, i);
        }
    }
    if forall|i: int|
        0 <= i < pipelines@.len() ==> {
            let pipeline = #[trigger] pipelines@[i];
            &&& adapters::streams(pipeline.outputs@) ==> features.webrtc && tracks.contains(
                pipeline.id@,
            )
            &&& pipeline.resolved_backend == ResolvedInputBackend::LibcameraDevice ==> features.pi
                && has_cameras
        } {
        assert forall|i: int| 0 <= i < pipelines@.len() implies pipeline_gap(
            #[trigger] pipelines@[i],
            features,
            tracks.contains(pipelines@[i].id@),
            has_cameras,
        ) is None by {
            gaps_are_what_is_missing(
                pipelines@[i],
                features,
                tracks.contains(pipelines@[i].id@),
                has_cameras,
            );
        }
        the_first_gap_is_reported(
            pipelines@,
            features,
            tracks,
            has_cameras,
            pipelines@.len() as int,
        );
    }
}

} // verus!
